use image_browser::scan::FileStat;
use image_browser::timestamp::ClockReading;
use image_browser::get_image_metadata;

fn stat() -> FileStat {
    FileStat { size: 42, created: ClockReading::Secs(1431648000), modified: ClockReading::Secs(0) }
}

#[test]
fn metadata_of_a_named_file() {
    let now = "NOW".to_string();
    let m = get_image_metadata("/pics/cat.webp".to_string(), &stat(), &now).ok().unwrap();
    assert_eq!(m.path, "/pics/cat.webp");
    assert_eq!(m.name, "cat.webp");
    assert_eq!(m.size, 42);
    assert_eq!(m.created, "2015-05-15T00:00:00+00:00");
    assert_eq!(m.width, None);
    assert_eq!(m.height, None);
}

#[test]
fn metadata_without_a_name_is_unknown() {
    for p in ["/", "..", "/pics/.."] {
        let m = get_image_metadata(p.to_string(), &stat(), &"NOW".to_string()).ok().unwrap();
        assert_eq!(m.name, "unknown");
        assert_eq!(m.path, p);
    }
}

#[test]
fn metadata_clock_error() {
    let now = "NOW".to_string();
    let st = FileStat {
        size: 1,
        created: ClockReading::Unavailable("unsupported".to_string()),
        modified: ClockReading::BeforeEpoch("before epoch".to_string()),
    };
    assert_eq!(get_image_metadata("/a.png".to_string(), &st, &now).err(), Some("before epoch".to_string()));
}

#[test]
fn metadata_name_is_the_last_component() {
    let m = get_image_metadata("/pics/sub/".to_string(), &stat(), &"NOW".to_string()).ok().unwrap();
    assert_eq!(m.name, "sub");
}
