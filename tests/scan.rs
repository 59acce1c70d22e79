use image_browser::scan::{
    list_filenames_in_folder, list_images_in_folder, list_subfolders, DirEntryInfo,
    EntryKind, FileStat, ScanError,
};
use image_browser::timestamp::ClockReading;

fn stat(size: u64, secs: u64) -> Result<FileStat, String> {
    Ok(FileStat {
        size,
        created: ClockReading::Secs(secs),
        modified: ClockReading::Secs(secs),
    })
}

fn entry(name: &str, kind: EntryKind, size: u64) -> Result<DirEntryInfo, String> {
    Ok(DirEntryInfo {
        name: Some(name.to_string()),
        path: format!("/pics/{}", name),
        kind: Ok(kind),
        stat: stat(size, 1431648000),
    })
}

fn sample(order: &[usize]) -> Vec<Result<DirEntryInfo, String>> {
    let all = vec![
        entry("x.png", EntryKind::File, 10),
        entry("y.txt", EntryKind::File, 20),
        entry("z.JPG", EntryKind::File, 30),
        entry("sub", EntryKind::Directory, 0),
    ];
    let mut all: Vec<Option<Result<DirEntryInfo, String>>> = all.into_iter().map(Some).collect();
    order.iter().map(|&i| all[i].take().unwrap()).collect()
}

fn sorted_names(v: &[image_browser::ImageFile]) -> Vec<String> {
    let mut names: Vec<String> = v.iter().map(|f| f.name.clone()).collect();
    names.sort();
    names
}

#[test]
fn images_are_kept_in_any_order() {
    for order in [[0, 1, 2, 3], [3, 2, 1, 0], [1, 3, 0, 2]] {
        let listing = Ok(sample(&order));
        let found = list_images_in_folder(true, &listing, &"NOW".to_string()).ok().unwrap();
        assert_eq!(found.len(), 2);
        assert_eq!(sorted_names(&found), vec!["x.png".to_string(), "z.JPG".to_string()]);
    }
}

#[test]
fn image_records_carry_path_size_and_time() {
    let listing = Ok(sample(&[0, 1, 2, 3]));
    let now = "NOW".to_string();
    let found = list_images_in_folder(true, &listing, &now).ok().unwrap();
    assert_eq!(found[0].name, "x.png");
    assert_eq!(found[0].path, "/pics/x.png");
    assert_eq!(found[0].size, 10);
    assert_eq!(found[0].created, "2015-05-15T00:00:00+00:00");
    assert_eq!(found[1].name, "z.JPG");
    assert_eq!(found[1].size, 30);
}

#[test]
fn not_a_directory_gives_no_data() {
    let listing = Ok(sample(&[0, 1, 2, 3]));
    assert!(matches!(list_images_in_folder(false, &listing, &"NOW".to_string()), Err(ScanError::NotADirectory)));
    assert!(matches!(list_filenames_in_folder(false, &listing), Err(ScanError::NotADirectory)));
    assert!(matches!(list_subfolders(false, &listing), Err(ScanError::NotADirectory)));
    let e = list_filenames_in_folder(false, &listing).err().unwrap();
    assert_eq!(e.message(), "Provided path is not a directory");
}

#[test]
fn filenames_and_subfolders() {
    let listing = Ok(sample(&[0, 1, 2, 3]));
    assert_eq!(
        list_filenames_in_folder(true, &listing).ok().unwrap(),
        vec!["x.png".to_string(), "y.txt".to_string(), "z.JPG".to_string()]
    );
    assert_eq!(list_subfolders(true, &listing).ok().unwrap(), vec!["sub".to_string()]);
}

#[test]
fn empty_directory_lists_nothing() {
    let listing = Ok(Vec::new());
    assert!(list_images_in_folder(true, &listing, &"NOW".to_string()).ok().unwrap().is_empty());
    assert!(list_filenames_in_folder(true, &listing).ok().unwrap().is_empty());
}

#[test]
fn unreadable_directory_fails() {
    let listing: Result<Vec<Result<DirEntryInfo, String>>, String> = Err("denied".to_string());
    match list_images_in_folder(true, &listing, &"NOW".to_string()) {
        Err(ScanError::DirectoryUnreadable(m)) => assert_eq!(m, "denied"),
        _ => panic!("expected DirectoryUnreadable"),
    }
}

#[test]
fn one_bad_entry_fails_the_whole_scan() {
    let mut es = sample(&[0, 1, 2, 3]);
    es.insert(1, Err("entry gone".to_string()));
    let listing = Ok(es);
    match list_images_in_folder(true, &listing, &"NOW".to_string()) {
        Err(ScanError::EntryUnreadable(m)) => assert_eq!(m, "entry gone"),
        _ => panic!("expected EntryUnreadable"),
    }
    assert!(matches!(list_subfolders(true, &listing), Err(ScanError::EntryUnreadable(_))));
}

#[test]
fn metadata_error_counts_only_for_images() {
    let mut es = sample(&[0, 1, 2, 3]);
    if let Ok(info) = &mut es[1] {
        info.stat = Err("stat failed".to_string());
    }
    let listing = Ok(es);
    assert_eq!(list_images_in_folder(true, &listing, &"NOW".to_string()).ok().unwrap().len(), 2);
    let mut es = sample(&[0, 1, 2, 3]);
    if let Ok(info) = &mut es[0] {
        info.stat = Err("stat failed".to_string());
    }
    let listing = Ok(es);
    match list_images_in_folder(true, &listing, &"NOW".to_string()) {
        Err(ScanError::EntryUnreadable(m)) => assert_eq!(m, "stat failed"),
        _ => panic!("expected EntryUnreadable"),
    }
}

#[test]
fn symlinks_and_non_utf8_names_are_skipped() {
    let mut es = vec![entry("link.png", EntryKind::Other, 1)];
    es.push(Ok(DirEntryInfo {
        name: None,
        path: "/pics/?.png".to_string(),
        kind: Ok(EntryKind::File),
        stat: stat(1, 0),
    }));
    let listing = Ok(es);
    assert!(list_images_in_folder(true, &listing, &"NOW".to_string()).ok().unwrap().is_empty());
    assert!(list_filenames_in_folder(true, &listing).ok().unwrap().is_empty());
}

#[test]
fn clock_error_of_an_image_fails_the_scan() {
    let es = vec![Ok(DirEntryInfo {
        name: Some("old.png".to_string()),
        path: "/pics/old.png".to_string(),
        kind: Ok(EntryKind::File),
        stat: Ok(FileStat {
            size: 1,
            created: ClockReading::BeforeEpoch("before epoch".to_string()),
            modified: ClockReading::Secs(5),
        }),
    })];
    match list_images_in_folder(true, &Ok(es), &"NOW".to_string()) {
        Err(ScanError::EntryUnreadable(m)) => assert_eq!(m, "before epoch"),
        _ => panic!("expected EntryUnreadable"),
    }
}
