use rhysix::coords::window_to_world;

#[test]
fn window_point_maps_to_cell() {
    assert_eq!(window_to_world(0, 0), Some((0, 0)));
    assert_eq!(window_to_world(7, 9), Some((1, 2)));
    assert_eq!(window_to_world(799, 599), Some((199, 149)));
}

#[test]
fn window_far_edge_lets_one_past_through() {
    assert_eq!(window_to_world(800, 600), Some((200, 150)));
    assert_eq!(window_to_world(803, 0), Some((200, 0)));
    assert_eq!(window_to_world(804, 0), None);
    assert_eq!(window_to_world(0, 604), None);
}

#[test]
fn window_negative_truncates_toward_zero() {
    assert_eq!(window_to_world(-1, -3), Some((0, 0)));
    assert_eq!(window_to_world(-4, 0), None);
    assert_eq!(window_to_world(0, -4), None);
    assert_eq!(window_to_world(i32::MIN, i32::MAX), None);
}
