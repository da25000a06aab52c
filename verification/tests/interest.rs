use veloren_server::interest::{chunk_in_vd, entity_in_vd, key_in_vd};
use veloren_server::terrain::{key_offs, pos_key, chunk_coord_of};

#[test]
fn chunk_three_away_is_in_view_at_distance_two() {
    assert!(key_in_vd((10, 10), (13, 10), 2));
}

#[test]
fn chunk_ten_away_is_not_in_view_at_distance_two() {
    assert!(!key_in_vd((10, 10), (20, 10), 2));
}

#[test]
fn view_is_measured_from_the_chunk_of_the_player() {
    let player = (10 * 32 + 5, 10 * 32 + 31, 77);
    assert!(chunk_in_vd(player, (13, 10), 2));
    assert!(!chunk_in_vd(player, (20, 10), 2));
    assert!(chunk_in_vd(player, (10, 14), 2));
    assert!(!chunk_in_vd(player, (10, 15), 2));
}

#[test]
fn view_distance_is_a_circle_beyond_the_slack() {
    // adjusted distances 3 and 4: 9 + 16 = 25 = 5 * 5
    assert!(key_in_vd((0, 0), (5, 6), 5));
    // adjusted distances 4 and 4: 32 > 25
    assert!(!key_in_vd((0, 0), (6, 6), 5));
    // the same on the other side of the origin
    assert!(key_in_vd((0, 0), (-5, -6), 5));
    assert!(!key_in_vd((0, 0), (-6, -6), 5));
}

#[test]
fn slack_is_in_view_at_distance_zero() {
    assert!(key_in_vd((4, 4), (6, 2), 0));
    assert!(key_in_vd((4, 4), (4, 4), 0));
    assert!(!key_in_vd((4, 4), (7, 4), 0));
}

#[test]
fn extreme_coordinates_do_not_overflow() {
    assert!(!key_in_vd((i32::MIN, i32::MIN), (i32::MAX, i32::MAX), 1000));
    assert!(!key_in_vd((i32::MIN, 0), (i32::MAX, 0), u32::MAX - 3));
    assert!(key_in_vd((i32::MIN, 0), (i32::MAX, 0), u32::MAX - 2));
    assert!(key_in_vd((i32::MAX, i32::MAX), (i32::MAX, i32::MAX), 0));
}

#[test]
fn entities_are_seen_by_the_chunk_they_stand_in() {
    let client = (10 * 32, 10 * 32, 0);
    assert!(entity_in_vd(client, (13 * 32 + 31, 10 * 32, -40), 2));
    assert!(!entity_in_vd(client, (20 * 32, 10 * 32, 0), 2));
}

#[test]
fn chunk_coordinates_round_down() {
    assert_eq!(chunk_coord_of(0), 0);
    assert_eq!(chunk_coord_of(31), 0);
    assert_eq!(chunk_coord_of(32), 1);
    assert_eq!(chunk_coord_of(-1), -1);
    assert_eq!(chunk_coord_of(-32), -1);
    assert_eq!(chunk_coord_of(-33), -2);
    assert_eq!(chunk_coord_of(i32::MAX), 67_108_863);
    assert_eq!(chunk_coord_of(i32::MIN), -67_108_864);
    assert_eq!(pos_key((-1, 64, 5)), (-1, 2));
}

#[test]
fn place_in_chunk_is_taken_from_its_corner() {
    assert_eq!(key_offs((33, -1, -9)), (1, 31, -9));
    assert_eq!(key_offs((i32::MIN, i32::MAX, 0)), (0, 31, 0));
}
