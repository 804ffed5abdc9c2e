//! The settings of a smoothing kernel that are whole numbers: its dimension,
//! its family, and the constants that follow from them.

use vstd::prelude::*;

verus! {

/// Why a simulation's configuration was refused.
#[derive(Clone, Copy, Debug, PartialEq, Eq, Structural)]
pub enum ConfigError {
    /// The smoothing radius is not positive.
    NonPositiveSmoothingRadius,
    /// The particle mass is not positive.
    NonPositiveMass,
    /// The dimension is not 1, 2 or 3.
    UnsupportedDimension,
}

/// The dimension of the space that a kernel is normalised for.
#[derive(Clone, Copy, Debug, PartialEq, Eq, Structural)]
pub enum Dimension {
    One,
    Two,
    Three,
}

/// The family of a smoothing kernel.
#[derive(Clone, Copy, Debug, PartialEq, Eq, Structural)]
pub enum KernelKind {
    /// Piecewise cubic; its support is the radius it is built with.
    CubicSpline,
    /// Wendland C2; its support is twice the length it is built with.
    Wendland,
}

impl Dimension {
    /// The number of axes.
    pub open spec fn spec_axes(self) -> usize {
        match self {
            Dimension::One => 1,
            Dimension::Two => 2,
            Dimension::Three => 3,
        }
    }

    /// The dimension of `axes` axes; an error unless `axes` is 1, 2 or 3.
    pub fn new(axes: usize) -> (dimension: Result<Dimension, ConfigError>)
        ensures
            1 <= axes <= 3 ==> dimension.is_ok() && dimension.unwrap().spec_axes() == axes,
            !(1 <= axes <= 3) ==> dimension == Err::<Dimension, ConfigError>(
                ConfigError::UnsupportedDimension,
            ),
    {
        if axes == 1 {
            Ok(Dimension::One)
        } else if axes == 2 {
            Ok(Dimension::Two)
        } else if axes == 3 {
            Ok(Dimension::Three)
        } else {
            Err(ConfigError::UnsupportedDimension)
        }
    }

    /// The number of axes.
    pub fn axes(self) -> (axes: usize)
        ensures
            axes == self.spec_axes(),
    {
        match self {
            Dimension::One => 1,
            Dimension::Two => 2,
            Dimension::Three => 3,
        }
    }

    /// The factor `2 (d + 2)` of the viscosity term in `d` dimensions.
    pub fn viscosity_factor(self) -> (factor: u32)
        ensures
            factor == 2 * (self.spec_axes() + 2),
    {
        match self {
            Dimension::One => 6,
            Dimension::Two => 8,
            Dimension::Three => 10,
        }
    }
}

/// Checks a configuration once, at construction. The two flags say whether
/// the smoothing radius and the particle mass are positive. The first fault
/// found is reported: the radius, then the mass, then the dimension.
pub fn validate_configuration(radius_is_positive: bool, mass_is_positive: bool, axes: usize) -> (checked:
    Result<Dimension, ConfigError>)
    ensures
        !radius_is_positive ==> checked == Err::<Dimension, ConfigError>(
            ConfigError::NonPositiveSmoothingRadius,
        ),
        radius_is_positive && !mass_is_positive ==> checked == Err::<Dimension, ConfigError>(
            ConfigError::NonPositiveMass,
        ),
        radius_is_positive && mass_is_positive && !(1 <= axes <= 3) ==> checked == Err::<
            Dimension,
            ConfigError,
        >(ConfigError::UnsupportedDimension),
        radius_is_positive && mass_is_positive && 1 <= axes <= 3 ==> checked.is_ok()
            && checked.unwrap().spec_axes() == axes,
{
    if !radius_is_positive {
        Err(ConfigError::NonPositiveSmoothingRadius)
    } else if !mass_is_positive {
        Err(ConfigError::NonPositiveMass)
    } else {
        Dimension::new(axes)
    }
}

impl KernelKind {
    /// The support radius of the kernel, as a multiple of the length that it
    /// is built with.
    pub fn support_multiple(self) -> (multiple: u32)
        ensures
            multiple == match self {
                KernelKind::CubicSpline => 1u32,
                KernelKind::Wendland => 2u32,
            },
    {
        match self {
            KernelKind::CubicSpline => 1,
            KernelKind::Wendland => 2,
        }
    }
}

} // verus!
