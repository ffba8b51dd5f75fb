use hal9001::system::Packages;
use hal9001::updates::{pending_update_count, record_update_count, update_status, UpdateStatus};

fn summary(pending: Option<usize>) -> Option<Packages> {
    Some(Packages { total: 10, by_manager: vec![("pacman", 10)], pending_updates: pending })
}

#[test]
fn pending_counts_checkupdates_lines() {
    let out = "linux 6.1-1 -> 6.2-1\nmesa 23-1 -> 24-1\n";
    assert_eq!(pending_update_count(Some(out), Some("ignored\nlines\nhere"), None, None, None), Some(2));
}

#[test]
fn pending_falls_back_to_pacman() {
    assert_eq!(pending_update_count(None, Some("a 1 -> 2\nb 1 -> 2\nc 1 -> 2"), None, None, None), Some(3));
}

#[test]
fn pending_adds_flatpak_and_apt_check() {
    let r = pending_update_count(Some("x\n"), None, Some("org.app.One\norg.app.Two\n"), Some("7;3"), None);
    assert_eq!(r, Some(10));
}

#[test]
fn apt_check_without_number_counts_nothing() {
    assert_eq!(pending_update_count(None, None, None, Some("garbage;1"), None), Some(0));
    assert_eq!(pending_update_count(None, None, None, Some("12"), None), Some(12));
}

#[test]
fn apt_check_takes_precedence_over_simulation() {
    let sim = "Inst foo [1] (2 Debian)\nConf foo (2 Debian)\nInst bar [1] (2 Debian)\n";
    assert_eq!(pending_update_count(None, None, None, Some("1;0"), Some(sim)), Some(1));
    assert_eq!(pending_update_count(None, None, None, None, Some(sim)), Some(2));
}

#[test]
fn line_counting_follows_str_lines() {
    assert_eq!(pending_update_count(Some(""), None, None, None, None), Some(0));
    assert_eq!(pending_update_count(Some("a\r\nb"), None, None, None, None), Some(2));
    assert_eq!(pending_update_count(Some("\n\n"), None, None, None, None), Some(2));
}

#[test]
fn pending_total_overflow_is_none() {
    let max = usize::MAX.to_string();
    assert_eq!(pending_update_count(Some("x"), None, None, Some(max.as_str()), None), None);
    assert_eq!(pending_update_count(None, None, None, Some(max.as_str()), None), Some(usize::MAX));
}

#[test]
fn fresh_count_is_announced_once() {
    let mut p = summary(None);
    assert!(record_update_count(&mut p, 3));
    assert_eq!(p.as_ref().unwrap().pending_updates, Some(3));
    assert!(!record_update_count(&mut p, 3));
    assert!(record_update_count(&mut p, 4));
    assert!(!record_update_count(&mut p, 0));
    assert_eq!(p.as_ref().unwrap().pending_updates, Some(0));
    assert_eq!(p.as_ref().unwrap().total, 10);
}

#[test]
fn count_without_summary_is_not_kept() {
    let mut p: Option<Packages> = None;
    assert!(record_update_count(&mut p, 2));
    assert!(p.is_none());
}

#[test]
fn update_status_reflects_last_count() {
    assert_eq!(update_status(&summary(Some(0))), UpdateStatus::UpToDate);
    assert_eq!(update_status(&summary(Some(5))), UpdateStatus::Pending(5));
    assert_eq!(update_status(&summary(None)), UpdateStatus::Checking);
    assert_eq!(update_status(&None), UpdateStatus::Checking);
}
