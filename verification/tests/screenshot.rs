use snaptext::ocr::BBox;
use snaptext::screenshot::{
    monitor_local_coordinate, primary_monitor_index, validate_region,
    validate_region_inside_monitor,
};

#[test]
fn validate_region_rejects_empty_region() {
    let err = validate_region(BBox {
        x: 0,
        y: 0,
        width: 0,
        height: 10,
    })
    .expect_err("empty region");

    assert!(err.message().contains("capture region cannot be empty"));
}

#[test]
fn validate_region_accepts_non_empty_region() {
    validate_region(BBox {
        x: 0,
        y: 0,
        width: 10,
        height: 10,
    })
    .expect("valid region");
}

#[test]
fn validate_region_inside_monitor_accepts_fitting_region() {
    validate_region_inside_monitor(90, 80, 10, 20, 100, 100).expect("fits monitor");
}

#[test]
fn validate_region_inside_monitor_rejects_overflowing_region() {
    let err = validate_region_inside_monitor(95, 80, 10, 20, 100, 100).expect_err("out of bounds");

    assert!(err.message().contains("exceeds monitor bounds"));
    assert_eq!(
        err.message(),
        "screenshot failed: capture region 95,80 10x20 exceeds monitor bounds 100x100"
    );
}

#[test]
fn validate_region_inside_monitor_rejects_integer_overflow() {
    let err = validate_region_inside_monitor(u32::MAX, 0, 1, 1, u32::MAX, u32::MAX)
        .expect_err("integer overflow");

    assert!(err.message().contains("exceeds monitor bounds"));
}

#[test]
fn monitor_local_coordinates_subtract_the_origin_and_stop_at_zero() {
    assert_eq!(monitor_local_coordinate(150, 100), 50);
    assert_eq!(monitor_local_coordinate(50, 100), 0);
    assert_eq!(monitor_local_coordinate(20, -1920), 1940);
}

#[test]
fn primary_monitor_is_preferred_and_the_first_is_the_fallback() {
    assert_eq!(primary_monitor_index(&vec![false, true, true]).expect("monitor"), 1);
    assert_eq!(primary_monitor_index(&vec![false, false]).expect("monitor"), 0);
    assert!(primary_monitor_index(&Vec::new())
        .expect_err("no monitor")
        .message()
        .contains("no monitor available"));
}
