use clipvault::capture::{
    capture_file_name, collect_successes, is_overlay_label, overlay_label, CaptureError,
    CaptureResult, OverlayRegistry,
};

fn cap(id: u32, w: u32, h: u32, scale_pct: u32) -> CaptureResult {
    CaptureResult {
        id,
        path: format!("/tmp/screenshot_{}.png", id),
        x: 0,
        y: 0,
        width: w,
        height: h,
        scale_pct,
    }
}

#[test]
fn zero_displays_is_a_hard_failure() {
    let outcomes: Vec<Option<CaptureResult>> = Vec::new();
    assert_eq!(collect_successes(&outcomes).unwrap_err(), CaptureError::NoDisplays);
}

#[test]
fn one_failed_display_yields_the_other_results() {
    let outcomes = vec![
        Some(cap(1, 1920, 1080, 100)),
        None,
        Some(cap(3, 2560, 1440, 200)),
    ];
    let ok = collect_successes(&outcomes).unwrap();
    assert_eq!(ok.len(), 2);
    assert_eq!(ok[0].id, 1);
    assert_eq!(ok[1].id, 3);
}

#[test]
fn all_displays_failing_fails_the_request() {
    let outcomes: Vec<Option<CaptureResult>> = vec![None, None];
    assert_eq!(collect_successes(&outcomes).unwrap_err(), CaptureError::NoneSucceeded);
}

#[test]
fn overlay_geometry_divides_by_the_scale_factor() {
    let c = cap(1, 1920, 1080, 200);
    assert_eq!(c.logical_size(), (960, 540));
    let c = cap(2, 1920, 1080, 100);
    assert_eq!(c.logical_size(), (1920, 1080));
    let c = cap(3, 1920, 1080, 125);
    assert_eq!(c.logical_size(), (1536, 864));
}

#[test]
fn capture_file_names_come_from_id_and_time() {
    assert_eq!(capture_file_name(3, 1700000000123), "screenshot_3_1700000000123.png");
    assert_eq!(capture_file_name(0, 0), "screenshot_0_0.png");
    assert_ne!(capture_file_name(1, 5), capture_file_name(1, 6));
    assert_ne!(capture_file_name(1, 5), capture_file_name(2, 5));
}

#[test]
fn overlay_labels_mark_this_subsystem() {
    assert_eq!(overlay_label(7), "screenshot_7");
    assert!(is_overlay_label("screenshot_7"));
    assert!(is_overlay_label("screenshot_123"));
    assert!(!is_overlay_label("main"));
    assert!(!is_overlay_label("popup"));
    assert!(!is_overlay_label("screenshot"));
}

#[test]
fn overlay_registry_keeps_one_surface_per_display() {
    let mut reg = OverlayRegistry::new();
    assert!(reg.ensure_surface(1));
    assert!(reg.ensure_surface(2));
    // a second request for a live display reuses the surface
    assert!(!reg.ensure_surface(1));
    assert_eq!(reg.ids.len(), 2);
    assert!(reg.is_live(1));
    assert!(!reg.is_live(3));
    reg.close_all();
    assert!(reg.ids.is_empty());
    assert!(!reg.is_live(1));
}
