use hal9001::analyzer::{usage_listing, DiskAnalyzerState, UsageEntry};

fn entry(name: &str, is_dir: bool, size: u64) -> UsageEntry {
    UsageEntry { name: name.to_string(), is_dir, size_bytes: size }
}

#[test]
fn listing_is_largest_first_with_total() {
    let listing = usage_listing(vec![
        entry("small.txt", false, 10),
        entry("big.txt", false, 1000),
        entry("subdir", true, 500),
        entry("other.txt", false, 500),
        entry("mid.txt", false, 100),
    ]);
    let names: Vec<&str> = listing.items.iter().map(|e| e.name.as_str()).collect();
    assert_eq!(names, vec!["big.txt", "subdir", "other.txt", "mid.txt", "small.txt"]);
    assert_eq!(listing.total_bytes, 2110);
    assert!(listing.items[1].is_dir);
    let empty = usage_listing(vec![]);
    assert!(empty.items.is_empty());
    assert_eq!(empty.total_bytes, 0);
}

#[test]
fn analyzer_navigation() {
    let mut s = DiskAnalyzerState::opening("/home/user".to_string());
    assert!(s.is_scanning && s.items.is_empty() && s.selected == 0);
    s.tick();
    assert_eq!(s.spinner_frame, 1);
    s.on_progress("Music".to_string(), 12, 4096);
    assert_eq!(s.files_scanned, 12);
    assert_eq!(s.current_scanning_item.as_deref(), Some("Music"));
    s.on_snapshot("/elsewhere", usage_listing(vec![entry("x", false, 1)]));
    assert!(s.is_scanning && s.items.is_empty());
    s.on_snapshot("/home/user", usage_listing(vec![entry("notes.txt", false, 5), entry("Music", true, 900)]));
    assert!(!s.is_scanning);
    assert_eq!(s.total_bytes, 905);
    assert_eq!(s.items[0].name, "Music");
    s.tick();
    assert_eq!(s.spinner_frame, 1);
    s.move_down();
    assert_eq!(s.selected, 1);
    s.move_down();
    assert_eq!(s.selected, 1);
    assert_eq!(s.drill_down(), None);
    s.move_up();
    assert_eq!(s.selected, 0);
    s.move_up();
    assert_eq!(s.selected, 0);
    assert_eq!(s.drill_down(), Some("/home/user/Music".to_string()));
    assert_eq!(s.current_path, "/home/user/Music");
    assert!(s.is_scanning && s.items.is_empty());
    s.on_error("permission denied".to_string());
    assert!(!s.is_scanning);
    assert_eq!(s.error.as_deref(), Some("permission denied"));
    assert_eq!(s.rescan(), "/home/user/Music");
    assert!(s.is_scanning && s.error.is_none());
    assert_eq!(s.go_up(Some("/home/user".to_string())), Some("/home/user".to_string()));
    assert_eq!(s.current_path, "/home/user");
    assert_eq!(s.go_up(None), None);
}
