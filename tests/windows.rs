use recorder::windows::{contains_point, fit_to_monitor, monitor_at, Rect};

fn rect(x: i32, y: i32, width: u32, height: u32) -> Rect {
    Rect { x, y, width, height }
}

#[test]
fn point_on_monitor_edges_counts() {
    let m = rect(0, 0, 1920, 1080);
    assert!(contains_point(&m, 0, 0));
    assert!(contains_point(&m, 1920, 1080));
    assert!(!contains_point(&m, 1921, 10));
    assert!(!contains_point(&m, -1, 10));
}

#[test]
fn first_monitor_under_the_mouse() {
    let monitors = vec![rect(0, 0, 1920, 1080), rect(1920, 0, 2560, 1440)];
    assert_eq!(monitor_at(&monitors, 100, 100), Some(0));
    assert_eq!(monitor_at(&monitors, 1920, 500), Some(0));
    assert_eq!(monitor_at(&monitors, 2000, 1200), Some(1));
    assert_eq!(monitor_at(&monitors, 5000, 0), None);
    assert_eq!(monitor_at(&Vec::new(), 0, 0), None);
}

#[test]
fn window_is_pulled_back_onto_its_monitor() {
    let m = rect(1920, 0, 2560, 1440);
    assert_eq!(fit_to_monitor(2000, 100, 620, 700, &m), (2000, 100));
    assert_eq!(fit_to_monitor(4400, 1000, 620, 700, &m), (3860, 740));
    assert_eq!(fit_to_monitor(4480, 1440, 620, 700, &m), (3860, 740));
}
