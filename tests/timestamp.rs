use image_browser::timestamp::{format_created, resolve_created_with, ClockReading};

#[test]
fn formats_rfc3339_with_offset() {
    let now = "NOW".to_string();
    assert_eq!(format_created(1431648000, &now), "2015-05-15T00:00:00+00:00");
    assert_eq!(format_created(0, &now), "1970-01-01T00:00:00+00:00");
}

#[test]
fn out_of_calendar_falls_back_to_now() {
    let now = "NOW".to_string();
    assert_eq!(format_created(u64::MAX, &now), "NOW");
    assert_eq!(format_created(i64::MAX as u64, &now), "NOW");
}

#[test]
fn creation_clock_is_preferred() {
    let now = "NOW".to_string();
    let r = resolve_created_with(&ClockReading::Secs(0), &ClockReading::Secs(1431648000), &now);
    assert_eq!(r, Ok("1970-01-01T00:00:00+00:00".to_string()));
}

#[test]
fn modification_clock_when_creation_is_unavailable() {
    let now = "NOW".to_string();
    let r = resolve_created_with(
        &ClockReading::Unavailable("unsupported".to_string()),
        &ClockReading::Secs(1431648000),
        &now,
    );
    assert_eq!(r, Ok("2015-05-15T00:00:00+00:00".to_string()));
    let r = resolve_created_with(
        &ClockReading::Unavailable("unsupported".to_string()),
        &ClockReading::Unavailable("no mtime".to_string()),
        &now,
    );
    assert_eq!(r, Err("no mtime".to_string()));
}

#[test]
fn pre_epoch_creation_is_an_error() {
    let now = "NOW".to_string();
    let r = resolve_created_with(
        &ClockReading::BeforeEpoch("before epoch".to_string()),
        &ClockReading::Secs(5),
        &now,
    );
    assert_eq!(r, Err("before epoch".to_string()));
}
