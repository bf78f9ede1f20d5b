use toki_core::interaction::{
    aabb_overlap, plan_overlapping_pickups, Bounds, PickupCandidate, PickupCollector,
};

fn bounds(x: i32, y: i32, width: u32, height: u32) -> Bounds {
    Bounds { x, y, width, height }
}

fn pickup(entity_id: u32, active: bool, b: Bounds, item_id: &str, count: u32) -> PickupCandidate {
    PickupCandidate { entity_id, active, bounds: b, item_id: item_id.to_string(), count }
}

#[test]
fn boxes_that_share_interior_overlap() {
    assert!(aabb_overlap(bounds(0, 0, 16, 16), bounds(8, 8, 16, 16)));
    assert!(aabb_overlap(bounds(0, 0, 16, 16), bounds(4, 4, 2, 2)));
}

#[test]
fn boxes_that_touch_at_an_edge_do_not_overlap() {
    assert!(!aabb_overlap(bounds(0, 0, 16, 16), bounds(16, 0, 16, 16)));
    assert!(!aabb_overlap(bounds(0, 0, 16, 16), bounds(0, 16, 16, 16)));
    assert!(!aabb_overlap(bounds(0, 0, 0, 0), bounds(0, 0, 16, 16)));
}

#[test]
fn overlap_handles_extreme_coordinates() {
    assert!(aabb_overlap(bounds(i32::MAX - 1, 0, u32::MAX, 4), bounds(i32::MAX, 0, 4, 4)));
    assert!(!aabb_overlap(bounds(i32::MIN, 0, 4, 4), bounds(i32::MAX, 0, u32::MAX, 4)));
}

#[test]
fn overlapping_pickup_is_collected_once_by_an_overlapping_collector() {
    let collectors = vec![
        PickupCollector { entity_id: 1, bounds: bounds(0, 0, 16, 16) },
        PickupCollector { entity_id: 2, bounds: bounds(100, 100, 16, 16) },
    ];
    let pickups = vec![pickup(7, true, bounds(8, 8, 8, 8), "coin", 3)];
    let plan = plan_overlapping_pickups(&collectors, &pickups);
    assert_eq!(plan.len(), 1);
    assert_eq!(plan[0].collector_id, 1);
    assert_eq!(plan[0].pickup_id, 7);
    assert_eq!(plan[0].item_id, "coin");
    assert_eq!(plan[0].count, 3);
}

#[test]
fn inactive_empty_or_distant_pickups_are_left() {
    let collectors = vec![PickupCollector { entity_id: 1, bounds: bounds(0, 0, 16, 16) }];
    let pickups = vec![
        pickup(2, false, bounds(0, 0, 8, 8), "coin", 1),
        pickup(3, true, bounds(0, 0, 8, 8), "coin", 0),
        pickup(4, true, bounds(0, 0, 8, 8), "", 1),
        pickup(5, true, bounds(16, 0, 8, 8), "coin", 1),
    ];
    assert!(plan_overlapping_pickups(&collectors, &pickups).is_empty());
}

#[test]
fn collections_come_in_increasing_pickup_id() {
    let collectors = vec![
        PickupCollector { entity_id: 9, bounds: bounds(0, 0, 64, 64) },
        PickupCollector { entity_id: 3, bounds: bounds(0, 0, 64, 64) },
    ];
    let pickups = vec![
        pickup(12, true, bounds(1, 1, 4, 4), "gem", 2),
        pickup(5, true, bounds(10, 10, 4, 4), "coin", 1),
        pickup(12, true, bounds(1, 1, 4, 4), "gem", 2),
    ];
    let plan = plan_overlapping_pickups(&collectors, &pickups);
    let ids: Vec<u32> = plan.iter().map(|c| c.pickup_id).collect();
    assert_eq!(ids, vec![5, 12]);
    assert_eq!(plan[0].item_id, "coin");
    assert_eq!(plan[1].item_id, "gem");
    assert_eq!(plan[1].count, 2);
}

#[test]
fn no_collectors_collect_nothing() {
    let pickups = vec![pickup(1, true, bounds(0, 0, 8, 8), "coin", 1)];
    assert!(plan_overlapping_pickups(&Vec::new(), &pickups).is_empty());
}
