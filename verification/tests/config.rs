use tui_preview::config::{apply_config_text, load, Config};

#[test]
fn defaults_follow_the_documented_values() {
    let c = load(None, None);
    assert_eq!(c.general.theme, "dark");
    assert!(!c.general.show_hidden);
    assert_eq!(c.general.preview_delay_ms, 50);
    assert_eq!(c.cache.max_disk_mb, 500);
    assert_eq!(c.cache.mem_entries, 100);
    assert!((2..=6).contains(&c.cache.worker_threads));
    assert_eq!(c.preview.max_image_mb, 50);
    assert_eq!(load(Some("light"), None).general.theme, "light");
}

#[test]
fn file_keys_override_the_defaults() {
    let text = "# settings\n[general]\nshow_hidden = true   # see dotfiles\ntheme = \"light\"\n\n[cache]\nmem_entries = 7\nworker_threads = 3\n[preview]\nmax_image_mb = 12\n";
    let c = apply_config_text(Config::default(), text);
    assert!(c.general.show_hidden);
    assert_eq!(c.general.theme, "light");
    assert_eq!(c.general.preview_delay_ms, 50);
    assert_eq!(c.cache.mem_entries, 7);
    assert_eq!(c.cache.worker_threads, 3);
    assert_eq!(c.cache.max_disk_mb, 500);
    assert_eq!(c.preview.max_image_mb, 12);
    let l = load(Some("mono"), Some(text));
    assert_eq!(l.general.theme, "mono");
    assert!(l.general.show_hidden);
}

#[test]
fn other_tables_and_keys_are_ignored() {
    let text = "[general]\ntheme = \"dark\"\nfollow_symlinks = true\n\n[ui]\ntruecolor = \"auto\"\n[keys]\nsearch = \"/\"\nprev_sheet = \"Shift-Tab\"\n[handlers]\n# image = 100\n[preview]\nmax_pdf_pages = 1\nmax_text_bytes = 2097152 # u64, 2MB\n";
    let c = apply_config_text(Config::default(), text);
    assert_eq!(c.general.theme, "dark");
    assert_eq!(c.preview.max_image_mb, 50);
    assert!(!c.general.show_hidden);
}

#[test]
fn malformed_files_keep_the_defaults() {
    for text in [
        "[general\nshow_hidden = true\n",
        "[general]\nshow_hidden = yes\n",
        "[general]\ntheme = 5\nshow_hidden = true\n",
        "[general]\nshow_hidden = true\njust words\n",
        "[cache]\nmem_entries = 99999999999999999999\n",
        "[general]\ntheme = \"a\\\"b\"\n",
        "[general]\ntheme = \"dark\" trailing\n",
    ] {
        let c = apply_config_text(Config::default(), text);
        assert!(!c.general.show_hidden, "{}", text);
        assert_eq!(c.general.theme, "dark", "{}", text);
        assert_eq!(c.cache.mem_entries, 100, "{}", text);
    }
}
