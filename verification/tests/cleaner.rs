use yfp::engine::cleaner::{
    dummy_file_name, is_dummy_file_name, is_listed_dummy_file, list_dummy_files, sum_existing_dummy_file_bytes, CleanupResult,
    DummyScanEntry,
};

fn entry(name: Option<&str>, is_file: bool, len: Option<u64>) -> DummyScanEntry {
    DummyScanEntry { name: name.map(|n| n.to_string()), is_file, len }
}

#[test]
fn dummy_names_need_prefix_and_suffix() {
    assert!(is_dummy_file_name("yfp_dummy_0_1700000000000.bin"));
    assert!(is_dummy_file_name("yfp_dummy_.bin"));
    assert!(!is_dummy_file_name("yfp_dummy_0.txt"));
    assert!(!is_dummy_file_name("dummy_0.bin"));
    assert!(!is_dummy_file_name("YFP_DUMMY_0.bin"));
    assert!(!is_dummy_file_name(""));
    assert!(!is_dummy_file_name("yfp_dummy_"));
}

#[test]
fn created_names_are_recognised() {
    let name = dummy_file_name(3, 1_700_000_000_123);
    assert_eq!(name, "yfp_dummy_3_1700000000123.bin");
    assert!(is_dummy_file_name(&name));
    assert_eq!(dummy_file_name(0, 0), "yfp_dummy_0_0.bin");
}

#[test]
fn only_regular_dummy_files_are_listed() {
    assert!(is_listed_dummy_file(&entry(Some("yfp_dummy_1_2.bin"), true, Some(5))));
    assert!(!is_listed_dummy_file(&entry(Some("yfp_dummy_1_2.bin"), false, Some(5))));
    assert!(!is_listed_dummy_file(&entry(None, true, Some(5))));
    assert!(!is_listed_dummy_file(&entry(Some("notes.txt"), true, Some(5))));
}

#[test]
fn existing_dummy_bytes_are_summed() {
    let entries = vec![
        entry(Some("yfp_dummy_0_1.bin"), true, Some(1000)),
        entry(Some("photo.jpg"), true, Some(50)),
        entry(Some("yfp_dummy_1_1.bin"), true, None),
        entry(Some("yfp_dummy_dir.bin"), false, Some(4096)),
        entry(Some("yfp_dummy_2_1.bin"), true, Some(24)),
    ];
    assert_eq!(sum_existing_dummy_file_bytes(&entries), 1024);
    assert_eq!(sum_existing_dummy_file_bytes(&vec![]), 0);
}

#[test]
fn purge_outcomes_are_tallied() {
    let r = CleanupResult::tally(&vec![true, false, true, true]);
    assert_eq!(r, CleanupResult { files_deleted: 3, files_failed_to_delete: 1 });
    assert_eq!(CleanupResult::tally(&vec![]), CleanupResult::default());
}

#[test]
fn listing_keeps_only_dummy_files_in_order() {
    let entries = vec![
        entry(Some("yfp_dummy_0_1.bin"), true, None),
        entry(Some("notes.txt"), true, None),
        entry(Some("yfp_dummy_1_2.bin"), false, None),
        entry(None, true, None),
        entry(Some("yfp_dummy_2_3.bin"), true, None),
        entry(Some("yfp_dummy_.bin"), true, None),
    ];
    assert_eq!(list_dummy_files(&entries), vec![0, 4, 5]);
    assert!(list_dummy_files(&vec![]).is_empty());
}
