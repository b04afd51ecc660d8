use battle_view::camera::{Camera, Direction, Rect, MAX_PITCH, MIN_PITCH};
use battle_view::scene::Scene;
use battle_view::types::{Size2, WorldPos};

fn bounded() -> Camera {
    let mut c = Camera::new(Size2 { w: 800, h: 600 });
    c.set_bounds(Rect { min_x: -100, min_y: -50, max_x: 100, max_y: 50 });
    c
}

#[test]
fn pans_stay_in_the_rectangle() {
    let mut c = bounded();
    c.pan(Direction::East, 70);
    assert_eq!((c.x, c.y), (70, 0));
    c.pan(Direction::East, 70);
    assert_eq!((c.x, c.y), (100, 0));
    c.pan(Direction::South, 1_000_000);
    assert_eq!((c.x, c.y), (100, -50));
    c.pan(Direction::West, i64::MAX);
    assert_eq!((c.x, c.y), (-100, -50));
    c.pan(Direction::North, -5);
    assert_eq!((c.x, c.y), (-100, -50));
    for k in 0..200i64 {
        let dir = [Direction::East, Direction::North, Direction::West, Direction::South][(k % 4) as usize];
        c.pan(dir, k * 37 - 3000);
        assert!(-100 <= c.x && c.x <= 100 && -50 <= c.y && c.y <= 50);
    }
}

#[test]
fn set_pos_is_clamped() {
    let mut c = bounded();
    c.set_pos(WorldPos { x: 500, y: -500, z: 3 });
    assert_eq!((c.x, c.y), (100, -50));
}

#[test]
fn yaw_wraps_and_pitch_is_clamped() {
    let mut c = bounded();
    c.add_horizontal_angle(-90_000);
    assert_eq!(c.yaw, 270_000);
    c.add_horizontal_angle(450_000);
    assert_eq!(c.yaw, 0);
    c.add_horizontal_angle(-720_000);
    assert_eq!(c.yaw, 0);
    c.rotate(10_000, 1_000_000);
    assert_eq!(c.yaw, 10_000);
    assert_eq!(c.pitch, MAX_PITCH);
    c.add_vertical_angle(-1_000_000);
    assert_eq!(c.pitch, MIN_PITCH);
}

#[test]
fn zoom_multiplies_per_mille_without_bounds() {
    let mut c = bounded();
    c.change_zoom(1300);
    assert_eq!(c.zoom, 1300);
    c.change_zoom(700);
    assert_eq!(c.zoom, 910);
    c.change_zoom(10_000_000);
    assert_eq!(c.zoom, 9_100_000);
    c.change_zoom(u64::MAX);
    assert_eq!(c.zoom, u64::MAX);
    c.change_zoom(0);
    assert_eq!(c.zoom, 0);
    c.change_zoom(1300);
    assert_eq!(c.zoom, 0);
}

#[test]
fn small_zoom_in_then_out_matches_out_then_in() {
    let mut io = bounded();
    io.change_zoom(100);
    assert_eq!(io.zoom, 100);
    io.change_zoom(700);
    assert_eq!(io.zoom, 70);
    io.change_zoom(1300);
    assert_eq!(io.zoom, 91);
    let mut oi = bounded();
    oi.change_zoom(100);
    oi.change_zoom(1300);
    assert_eq!(oi.zoom, 130);
    oi.change_zoom(700);
    assert_eq!(oi.zoom, 91);
}

#[test]
fn mutations_mark_the_projection_stale() {
    let mut c = bounded();
    c.mark_projection_built();
    assert!(!c.projection_stale);
    c.resize(Size2 { w: 1024, h: 768 });
    assert!(c.projection_stale);
    assert_eq!(c.viewport, Size2 { w: 1024, h: 768 });
    c.mark_projection_built();
    c.pan(Direction::East, 0);
    assert!(c.projection_stale);
}

#[test]
fn scene_camera_is_bounded_by_the_map_and_starts_in_its_middle() {
    let s = Scene::new(Size2 { w: 5, h: 5 }, Size2 { w: 800, h: 600 });
    let c = s.camera();
    assert_eq!(c.bounds, Rect { min_x: -5000, min_y: -4000, max_x: 0, max_y: 0 });
    assert_eq!((c.x, c.y), (-2500, -2000));
}

#[test]
fn zooming_in_either_order_stays_within_rounding_of_the_product() {
    let mut ab = bounded();
    ab.change_zoom(1333);
    ab.change_zoom(777);
    let mut ba = bounded();
    ba.change_zoom(777);
    ba.change_zoom(1333);
    let exact: i64 = 1000 * 1333 * 777;
    for z in [ab.zoom, ba.zoom] {
        let scaled = z as i64 * 1_000_000;
        assert!(scaled <= exact);
        assert!(scaled > exact - 1000 * 1333 - 1_000_000);
    }
    assert_eq!(ab.zoom, 1035);
    assert_eq!(ba.zoom, 1035);
}
