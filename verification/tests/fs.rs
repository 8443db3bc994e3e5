use tui_preview::fs::{read_dir_error, symlink_depth_check};
use tui_preview::fs::{human_size_public, is_allowed_format, list_dir, list_dir_filtered, list_dir_raw, Entry};
use tui_preview::preview::meta::{format_duration, human_size};

fn file(name: &str) -> Entry {
    Entry { path: format!("/d/{}", name), name: name.to_string(), is_dir: false, size: 5, is_symlink: false, symlink_target: None }
}

fn dir(name: &str) -> Entry {
    Entry { path: format!("/d/{}", name), name: name.to_string(), is_dir: true, size: 0, is_symlink: false, symlink_target: None }
}

fn names(v: &[Entry]) -> Vec<&str> {
    v.iter().map(|e| e.name.as_str()).collect()
}

#[test]
fn test_list_dir_sorting() {
    let raw = vec![dir("b_dir"), dir("a_dir"), file("z_file.png"), file("a_file.jpg")];
    let entries = list_dir(raw, false);
    assert!(entries[0].is_dir);
    assert_eq!(entries[0].name, "a_dir");
    assert_eq!(entries[1].name, "b_dir");
    assert_eq!(entries[2].name, "a_file.jpg");
    assert_eq!(entries[3].name, "z_file.png");
}

#[test]
fn test_hidden_filter() {
    let raw = vec![file(".hidden.png"), file("visible.png")];
    let no_hidden = list_dir(raw.clone(), false);
    assert_eq!(no_hidden.len(), 1);
    assert_eq!(no_hidden[0].name, "visible.png");
    let with_hidden = list_dir(raw, true);
    assert_eq!(with_hidden.len(), 2);
}

#[test]
fn test_allowed_formats_filter() {
    let raw = vec![file("photo.jpg"), file("doc.pdf"), file("script.exe"), file("archive.zip")];
    let entries = list_dir(raw.clone(), false);
    let names = names(&entries);
    assert!(names.contains(&"photo.jpg"));
    assert!(names.contains(&"doc.pdf"));
    assert!(names.contains(&"archive.zip"));
    assert!(!names.contains(&"script.exe"), "exe should be filtered");
    let raw_listing = list_dir_raw(raw, false);
    assert!(raw_listing.iter().any(|e| e.name == "script.exe"));
    assert!(is_allowed_format("file.PDF"));
    assert!(!is_allowed_format("file.exe"));
}

#[test]
fn sorting_ignores_case_and_keeps_directories_first() {
    let raw = vec![file("b.txt"), file("A.txt"), dir("zeta"), file("a.md"), dir("Alpha")];
    let all = list_dir_filtered(raw, true, false);
    assert_eq!(names(&all), vec!["Alpha", "zeta", "a.md", "A.txt", "b.txt"]);
}

#[test]
fn unfiltered_listing_keeps_every_format_and_no_extension_is_refused() {
    let raw = vec![file("Makefile"), file("run.sh"), dir("src")];
    assert_eq!(names(&list_dir_filtered(raw.clone(), false, false)), vec!["src", "Makefile", "run.sh"]);
    assert_eq!(names(&list_dir_filtered(raw, false, true)), vec!["src"]);
    assert!(!is_allowed_format("Makefile"));
    assert!(is_allowed_format("/x/y/Track.FLAC"));
}

#[test]
fn human_sizes_match_one_decimal_formatting() {
    for &b in &[0u64, 1, 512, 1023, 1024, 1280, 1536, 10 * 1024 + 51, 1048575, 1048576, 5 * 1024 * 1024 * 1024, u64::MAX] {
        let mut s = b as f64;
        let mut u = 0;
        let units = ["B", "KB", "MB", "GB", "TB"];
        while s >= 1024.0 && u < units.len() - 1 {
            s /= 1024.0;
            u += 1;
        }
        let expected = if u == 0 { format!("{} {}", b, units[u]) } else { format!("{:.1} {}", s, units[u]) };
        assert_eq!(human_size(b), expected, "bytes {}", b);
    }
    assert_eq!(human_size(1280), "1.2 KB");
    assert_eq!(human_size(1536), "1.5 KB");
    assert_eq!(human_size(1023), "1023 B");
}

#[test]
fn status_bar_sizes_stop_at_gigabytes() {
    assert_eq!(human_size_public(5 * 1024 * 1024 * 1024 * 1024), "5120.0 GB");
    assert_eq!(human_size_public(2048), "2.0 KB");
}

#[test]
fn durations_use_minutes_and_two_digit_seconds() {
    assert_eq!(format_duration(0), "0:00");
    assert_eq!(format_duration(187), "3:07");
    assert_eq!(format_duration(3600), "60:00");
}

#[test]
fn symlink_depth_and_read_errors() {
    assert!(symlink_depth_check(0).is_ok());
    assert!(symlink_depth_check(9).is_ok());
    assert_eq!(symlink_depth_check(10), Err("symlink depth exceeded 10".to_string()));
    assert_eq!(symlink_depth_check(11), Err("symlink depth exceeded 10".to_string()));
    assert_eq!(read_dir_error("/x", "denied"), "cannot read dir /x: denied");
}
