//! Choosing a graphics device: the score of a device, the queue families that
//! it must offer, and the best of several devices.

use vstd::prelude::*;

verus! {

/// Why no device could be used.
#[derive(Clone, Copy, Debug, PartialEq, Eq, Structural)]
pub enum DeviceError {
    /// No device, or the best one lacks what is required.
    NoSuitableGpuFound,
    /// The device has no graphics family or no presentation family.
    QueueFamilyNotFound,
}

/// The kind of a physical device.
#[derive(Clone, Copy, Debug, PartialEq, Eq, Structural)]
pub enum DeviceKind {
    Discrete,
    Integrated,
    Other,
}

/// What the score of a device is computed from.
#[derive(Clone, Copy, Debug, PartialEq, Eq, Structural)]
pub struct DeviceTraits {
    pub kind: DeviceKind,
    pub geometry_shader: bool,
    pub sampler_anisotropy: bool,
    pub max_image_dimension_2d: u32,
    pub max_image_dimension_3d: u32,
    pub max_viewport_width: u32,
}

/// What one queue family of a device can do.
#[derive(Clone, Copy, Debug, PartialEq, Eq, Structural)]
pub struct QueueFamily {
    pub graphics: bool,
    pub present: bool,
}

/// The indices of the queue families found on a device so far.
pub struct QueueFamilyIndices {
    pub graphics_family: Option<u32>,
    pub present_family: Option<u32>,
}

/// The score of a device: 0 without geometry shaders or anisotropic
/// filtering; else 100000 for a discrete and 5000 for an integrated device,
/// plus a hundredth of the 2D image limit, a fiftieth of the 3D image limit
/// and the viewport width.
pub open spec fn spec_device_score(d: DeviceTraits) -> int {
    if !d.geometry_shader || !d.sampler_anisotropy {
        0
    } else {
        let base: int = match d.kind {
            DeviceKind::Discrete => 100000,
            DeviceKind::Integrated => 5000,
            DeviceKind::Other => 0,
        };
        base + d.max_image_dimension_2d / 100 + d.max_image_dimension_3d / 50
            + d.max_viewport_width
    }
}

/// `found` is the last family for which `wanted` holds, or `None` where it
/// holds for none.
pub open spec fn is_last_family(
    families: Seq<QueueFamily>,
    wanted: spec_fn(QueueFamily) -> bool,
    found: Option<u32>,
) -> bool {
    match found {
        Some(i) => i < families.len() && wanted(families[i as int]) && forall|j: int|
            i < j < families.len() ==> !wanted(#[trigger] families[j]),
        None => forall|j: int| 0 <= j < families.len() ==> !wanted(#[trigger] families[j]),
    }
}

/// The predicate "the family does graphics".
pub open spec fn does_graphics() -> spec_fn(QueueFamily) -> bool {
    |f: QueueFamily| f.graphics
}

/// The predicate "the family can present to the surface".
pub open spec fn does_present() -> spec_fn(QueueFamily) -> bool {
    |f: QueueFamily| f.present
}

/// `best` is the position of the last of the greatest scores, or `None`
/// where there is no score.
pub open spec fn is_last_maximum(scores: Seq<u64>, best: Option<usize>) -> bool {
    match best {
        Some(i) => i < scores.len() && (forall|j: int|
            0 <= j < scores.len() ==> scores[j] <= scores[i as int]) && forall|j: int|
            i < j < scores.len() ==> scores[j] < scores[i as int],
        None => scores.len() == 0,
    }
}

impl Default for QueueFamilyIndices {
    /// No family found yet.
    fn default() -> (indices: Self)
        ensures
            indices.graphics_family.is_none(),
            indices.present_family.is_none(),
    {
        QueueFamilyIndices { graphics_family: None, present_family: None }
    }
}

impl QueueFamilyIndices {
    /// Tells whether both a graphics and a presentation family were found.
    pub fn is_complete(&self) -> (complete: bool)
        ensures
            complete == (self.graphics_family.is_some() && self.present_family.is_some()),
    {
        self.graphics_family.is_some() && self.present_family.is_some()
    }
}

/// Computes the score of a device. The sum is exact: it cannot overflow.
pub fn rate_device_suitability(d: &DeviceTraits) -> (score: u64)
    ensures
        score == spec_device_score(*d),
{
    if !d.geometry_shader || !d.sampler_anisotropy {
        return 0;
    }
    let base: u64 = match d.kind {
        DeviceKind::Discrete => 100000,
        DeviceKind::Integrated => 5000,
        DeviceKind::Other => 0,
    };
    base + (d.max_image_dimension_2d / 100) as u64 + (d.max_image_dimension_3d / 50) as u64
        + d.max_viewport_width as u64
}

/// Finds the graphics and the presentation family of a device: of each kind
/// the last family that offers it. Fails where either kind is missing.
pub fn find_queue_families(families: &[QueueFamily]) -> (found: Result<
    QueueFamilyIndices,
    DeviceError,
>)
    requires
        families@.len() <= u32::MAX,
    ensures
        match found {
            Ok(indices) => {
                &&& indices.graphics_family.is_some()
                &&& indices.present_family.is_some()
                &&& is_last_family(families@, does_graphics(), indices.graphics_family)
                &&& is_last_family(families@, does_present(), indices.present_family)
            },
            Err(e) => {
                &&& e == DeviceError::QueueFamilyNotFound
                &&& (is_last_family(families@, does_graphics(), None) || is_last_family(
                    families@,
                    does_present(),
                    None,
                ))
            },
        },
{
    let mut indices = QueueFamilyIndices::default();
    let mut i: usize = 0;
    while i < families.len()
        invariant
            i <= families@.len(),
            families@.len() <= u32::MAX,
            is_last_family(families@.take(i as int), does_graphics(), indices.graphics_family),
            is_last_family(families@.take(i as int), does_present(), indices.present_family),
        decreases families@.len() - i,
    {
        let family = families[i];
        if family.graphics {
            indices.graphics_family = Some(i as u32);
        }
        if family.present {
            indices.present_family = Some(i as u32);
        }
        proof {
            let before = families@.take(i as int);
            let after = families@.take(i + 1);
            assert(forall|j: int| 0 <= j < i ==> after[j] == before[j]);
            assert(after[i as int] == family);
        }
        i = i + 1;
    }
    assert(families@.take(i as int) =~= families@);
    if indices.is_complete() {
        Ok(indices)
    } else {
        Err(DeviceError::QueueFamilyNotFound)
    }
}

/// The distinct queue families of a complete set of indices: the graphics
/// family, then the presentation family where it is another.
pub fn unique_queue_families(indices: &QueueFamilyIndices) -> (unique: Vec<u32>)
    requires
        indices.graphics_family.is_some(),
        indices.present_family.is_some(),
    ensures
        unique@ == if indices.graphics_family == indices.present_family {
            seq![indices.graphics_family.unwrap()]
        } else {
            seq![indices.graphics_family.unwrap(), indices.present_family.unwrap()]
        },
{
    let graphics: u32 = indices.graphics_family.unwrap();
    let present: u32 = indices.present_family.unwrap();
    let mut unique: Vec<u32> = Vec::new();
    unique.push(graphics);
    if present != graphics {
        unique.push(present);
    }
    assert(unique@ =~= if indices.graphics_family == indices.present_family {
        seq![graphics]
    } else {
        seq![graphics, present]
    });
    unique
}

/// Every required name is among the offered ones.
pub open spec fn all_offered(required: Seq<Vec<u8>>, offered: Seq<Vec<u8>>) -> bool {
    forall|r: int|
        0 <= r < required.len() ==> exists|o: int|
            0 <= o < offered.len() && (#[trigger] offered[o])@ == (#[trigger] required[r])@
}

/// Tells whether two names are the same bytes.
fn same_name(a: &Vec<u8>, b: &Vec<u8>) -> (same: bool)
    ensures
        same == (a@ == b@),
{
    if a.len() != b.len() {
        return false;
    }
    let mut i: usize = 0;
    while i < a.len()
        invariant
            a@.len() == b@.len(),
            i <= a@.len(),
            forall|j: int| 0 <= j < i ==> a@[j] == b@[j],
        decreases a@.len() - i,
    {
        if a[i] != b[i] {
            return false;
        }
        i = i + 1;
    }
    assert(a@ =~= b@);
    true
}

/// Tells whether `name` is among the offered names.
fn is_offered(name: &Vec<u8>, offered: &[Vec<u8>]) -> (found: bool)
    ensures
        found == exists|o: int| 0 <= o < offered@.len() && (#[trigger] offered@[o])@ == name@,
{
    let mut o: usize = 0;
    while o < offered.len()
        invariant
            o <= offered@.len(),
            forall|j: int| 0 <= j < o ==> (#[trigger] offered@[j])@ != name@,
        decreases offered@.len() - o,
    {
        if same_name(&offered[o], name) {
            return true;
        }
        o = o + 1;
    }
    false
}

/// Tells whether the device offers every required extension, by name.
pub fn check_device_extension_support(required: &[Vec<u8>], offered: &[Vec<u8>]) -> (supported:
    bool)
    ensures
        supported == all_offered(required@, offered@),
{
    let mut r: usize = 0;
    while r < required.len()
        invariant
            r <= required@.len(),
            all_offered(required@.take(r as int), offered@),
        decreases required@.len() - r,
    {
        if !is_offered(&required[r], offered) {
            assert(!all_offered(required@, offered@)) by {
                assert(forall|o: int|
                    0 <= o < offered@.len() ==> (#[trigger] offered@[o])@ != required@[r as int]@);
            }
            return false;
        }
        proof {
            let before = required@.take(r as int);
            let after = required@.take(r + 1);
            assert forall|k: int| 0 <= k < after.len() implies exists|o: int|
                0 <= o < offered@.len() && (#[trigger] offered@[o])@ == (#[trigger] after[k])@ by {
                if k < r {
                    assert(after[k] == before[k]);
                }
            }
        }
        r = r + 1;
    }
    assert(required@.take(r as int) =~= required@);
    true
}

/// Picks the device with the greatest score, the last of them where several
/// share it. Fails where there is no device.
pub fn best_device(scores: &[u64]) -> (best: Result<usize, DeviceError>)
    ensures
        match best {
            Ok(i) => is_last_maximum(scores@, Some(i)),
            Err(e) => e == DeviceError::NoSuitableGpuFound && scores@.len() == 0,
        },
{
    if scores.len() == 0 {
        return Err(DeviceError::NoSuitableGpuFound);
    }
    let mut best: usize = 0;
    let mut i: usize = 1;
    while i < scores.len()
        invariant
            1 <= i <= scores@.len(),
            best < i,
            forall|j: int| 0 <= j < i ==> scores@[j] <= scores@[best as int],
            forall|j: int| best < j < i ==> scores@[j] < scores@[best as int],
        decreases scores@.len() - i,
    {
        if scores[i] >= scores[best] {
            best = i;
        }
        i = i + 1;
    }
    Ok(best)
}

/// The chosen device can be used: its score is positive, it supports the
/// required extensions, and its surface offers at least one format and one
/// presentation mode.
pub open spec fn spec_device_is_usable(
    score: u64,
    extensions_supported: bool,
    formats: usize,
    present_modes: usize,
) -> bool {
    score > 0 && extensions_supported && formats > 0 && present_modes > 0
}

/// Accepts the chosen device where it can be used, and refuses it otherwise.
pub fn confirm_device(
    score: u64,
    extensions_supported: bool,
    formats: usize,
    present_modes: usize,
) -> (confirmed: Result<(), DeviceError>)
    ensures
        confirmed == if spec_device_is_usable(
            score,
            extensions_supported,
            formats,
            present_modes,
        ) {
            Ok::<(), DeviceError>(())
        } else {
            Err::<(), DeviceError>(DeviceError::NoSuitableGpuFound)
        },
{
    if score > 0 && extensions_supported && formats > 0 && present_modes > 0 {
        Ok(())
    } else {
        Err(DeviceError::NoSuitableGpuFound)
    }
}

} // verus!
