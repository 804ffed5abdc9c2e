use dfsph::camera_commands::{CameraCommand, MoveForwardCameraCommand, MoveRightCameraCommand};
use dfsph::controller::{Controller, KeyboardAction, MoveKey};
use dfsph::device::QueueFamilyIndices;
use dfsph::fps_counter::{frames_per_second, FpsCounter};
use dfsph::particle_set::reorder_data;
use dfsph::neighbor_search::NeighborSearch;
use dfsph::spatial_hash::{Cell, Entry};

#[test]
fn commands_keep_their_direction() {
    assert!(MoveForwardCameraCommand::new(true).is_forward());
    assert!(!MoveForwardCameraCommand::new(false).is_forward());
    assert_eq!(MoveForwardCameraCommand::new(true).direction(), 1);
    assert_eq!(MoveForwardCameraCommand::new(false).direction(), -1);
    assert!(MoveRightCameraCommand::new(true).is_right());
    assert_eq!(MoveRightCameraCommand::new(true).direction(), 1);
    assert_eq!(MoveRightCameraCommand::new(false).direction(), -1);
}

#[test]
fn controller_starts_with_no_commands() {
    assert!(Controller::new().get_active_commands().is_empty());
}

#[test]
fn controller_reports_commands_in_key_order() {
    let mut c = Controller::new();
    c.update_key(MoveKey::A, KeyboardAction::Pressed);
    c.update_key(MoveKey::W, KeyboardAction::Pressed);
    c.update_key(MoveKey::D, KeyboardAction::Pressed);
    c.update_key(MoveKey::S, KeyboardAction::Pressed);
    assert_eq!(
        c.get_active_commands(),
        vec![
            CameraCommand::MoveForward(MoveForwardCameraCommand::new(true)),
            CameraCommand::MoveForward(MoveForwardCameraCommand::new(false)),
            CameraCommand::MoveRight(MoveRightCameraCommand::new(true)),
            CameraCommand::MoveRight(MoveRightCameraCommand::new(false)),
        ]
    );
    c.update_key(MoveKey::W, KeyboardAction::Released);
    c.update_key(MoveKey::D, KeyboardAction::Released);
    assert_eq!(
        c.get_active_commands(),
        vec![
            CameraCommand::MoveForward(MoveForwardCameraCommand::new(false)),
            CameraCommand::MoveRight(MoveRightCameraCommand::new(false)),
        ]
    );
}

#[test]
fn queue_families_complete_only_with_both() {
    let none = QueueFamilyIndices::default();
    assert!(none.graphics_family.is_none() && none.present_family.is_none());
    assert!(!none.is_complete());
    assert!(!QueueFamilyIndices { graphics_family: Some(0), present_family: None }.is_complete());
    assert!(!QueueFamilyIndices { graphics_family: None, present_family: Some(1) }.is_complete());
    assert!(QueueFamilyIndices { graphics_family: Some(0), present_family: Some(0) }.is_complete());
}

#[test]
fn rate_exact_values() {
    assert_eq!(frames_per_second(120, 1_000_000_000), 120);
    assert_eq!(frames_per_second(120, 2_000_000_000), 60);
    assert_eq!(frames_per_second(120, 500_000_000), 240);
    assert_eq!(frames_per_second(1, 3_000_000_000), 0);
    assert_eq!(frames_per_second(1, 2_000_000_000), 1);
    assert_eq!(frames_per_second(1, 2_000_000_001), 0);
    assert_eq!(frames_per_second(3, 2_000_000_000), 2);
    assert_eq!(frames_per_second(10, 3_000_000_000), 3);
}

#[test]
fn rate_edge_cases() {
    assert_eq!(frames_per_second(0, 0), 0);
    assert_eq!(frames_per_second(5, 0), u32::MAX);
    assert_eq!(frames_per_second(0, 17), 0);
    assert_eq!(frames_per_second(u32::MAX, 1), u32::MAX);
    assert_eq!(frames_per_second(u32::MAX, u128::MAX), 0);
    assert_eq!(frames_per_second(u32::MAX, 1_000_000_000), u32::MAX);
}

#[test]
fn counter_sets_rate_when_window_closes() {
    let mut c = FpsCounter::new(3);
    assert_eq!(c.fps(), 0);
    assert!(!c.count_frame(10));
    assert!(!c.count_frame(20));
    assert_eq!(c.fps(), 0);
    assert!(c.count_frame(1_000_000_000));
    assert_eq!(c.fps(), 3);
    assert!(!c.count_frame(5));
    assert_eq!(c.fps(), 3);
    assert!(!c.count_frame(5));
    assert!(c.count_frame(500_000_000));
    assert_eq!(c.fps(), 6);
}

#[test]
fn counter_with_empty_window_closes_every_frame() {
    let mut c = FpsCounter::new(0);
    assert!(c.count_frame(1_000));
    assert_eq!(c.fps(), 0);
    let mut one = FpsCounter::new(1);
    assert!(one.count_frame(250_000_000));
    assert_eq!(one.fps(), 4);
}

#[test]
fn tick_counts_frames_by_the_clock() {
    let mut c = FpsCounter::new(2);
    let first = c.tick();
    assert_eq!(c.fps(), 0);
    let second = c.tick();
    assert!(first.as_secs() < 20 && second.as_secs() < 20);
    assert!(c.fps() > 0);
}

#[test]
fn reorder_follows_the_entries() {
    let values = vec![10u64, 11, 12, 13];
    let order = vec![
        Entry { hash: 0, index: 2 },
        Entry { hash: 0, index: 3 },
        Entry { hash: 5, index: 0 },
        Entry { hash: 9, index: 1 },
    ];
    assert_eq!(reorder_data(&values, &order), vec![12, 13, 10, 11]);
    assert_eq!(reorder_data(&values, &[]), Vec::<u64>::new());
}

#[test]
fn reorder_by_table_is_a_permutation() {
    let cells: Vec<Cell> = (0..40).map(|i| Cell { x: i * 7 % 11, y: i % 3, z: -i }).collect();
    let labels: Vec<usize> = (0..40).collect();
    let mut ns = NeighborSearch::new();
    ns.build(&cells);
    let moved_labels = reorder_data(&labels, ns.get_sorted_indices());
    let moved_cells = reorder_data(&cells, ns.get_sorted_indices());
    let mut seen = moved_labels.clone();
    seen.sort();
    assert_eq!(seen, labels);
    for k in 0..40 {
        assert_eq!(moved_cells[k], cells[moved_labels[k]]);
    }
}
