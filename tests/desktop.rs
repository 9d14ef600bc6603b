use access_launcher::category::build_category_map;
use access_launcher::collect::{select_entries, Candidate};
use access_launcher::entry::{parse_desktop_entry, DesktopEntry};
use access_launcher::exec::{exec_check, exec_verdict};
use access_launcher::locale::{matches_lang_tag, normalize_lang_tag, parse_bool};
use std::path::PathBuf;

/// Where a descriptor of the given stem would be written.
fn temp_path(stem: &str) -> PathBuf {
    PathBuf::from(format!("/tmp/{stem}-0-0.desktop"))
}

fn exec_looks_valid(exec: &str) -> bool {
    exec_verdict(&exec_check(exec))
}

#[test]
fn normalize_lang_tag_strips_variants() {
    assert_eq!(normalize_lang_tag("en_US.UTF-8"), "en_US");
    assert_eq!(normalize_lang_tag("fr@latin"), "fr");
    assert_eq!(normalize_lang_tag("de_DE"), "de_DE");
}

#[test]
fn matches_lang_tag_handles_prefixes() {
    assert!(matches_lang_tag("en", "en_US.UTF-8"));
    assert!(matches_lang_tag("en_US", "en"));
    assert!(!matches_lang_tag("", "en_US"));
    assert!(!matches_lang_tag("en_US", ""));
}

#[test]
fn parse_bool_accepts_common_true_values() {
    assert!(parse_bool("true"));
    assert!(parse_bool("1"));
    assert!(parse_bool("yes"));
    assert!(parse_bool("YeS"));
    assert!(!parse_bool("false"));
    assert!(!parse_bool("0"));
}

#[test]
fn parse_desktop_entry_reads_core_fields() {
    let contents = r#"
[Desktop Entry]
Type=Application
Name=Sample App
Exec=/usr/bin/sample --flag
Categories=Utility;Development;
"#;
    let path = temp_path("access-launcher-core");
    let entry = parse_desktop_entry(&path.to_string_lossy(), contents, None, None)
        .expect("entry present");
    assert_eq!(entry.name, "Sample App");
    assert_eq!(entry.command, "/usr/bin/sample --flag");
    assert_eq!(
        entry.categories,
        vec!["Utility".to_string(), "Development".to_string()]
    );
}

#[test]
fn parse_desktop_entry_uses_localized_name() {
    let contents = r#"
[Desktop Entry]
Type=Application
Name=Default Name
Name[en_US]=Localized Name
Exec=app
"#;
    let path = temp_path("access-launcher-localized");
    let entry = parse_desktop_entry(&path.to_string_lossy(), contents, Some("en_US.UTF-8"), None)
        .expect("entry present");
    assert_eq!(entry.name, "Localized Name");
}

#[test]
fn parse_desktop_entry_only_show_in_filters() {
    let contents = r#"
[Desktop Entry]
Type=Application
Name=Desktop Filter
Exec=app
OnlyShowIn=GNOME;
"#;
    let path = temp_path("access-launcher-only-show-in").to_string_lossy().to_string();
    let gnome = vec!["GNOME".to_string()];
    let kde = vec!["KDE".to_string()];
    assert!(parse_desktop_entry(&path, contents, None, Some(&gnome)).is_some());
    assert!(parse_desktop_entry(&path, contents, None, Some(&kde)).is_none());
}

#[test]
fn parse_desktop_entry_not_show_in_filters() {
    let contents = "\n[Desktop Entry]\nType=Application\nName=Desktop Filter\nExec=app\nNotShowIn=GNOME;\n";
    let path = temp_path("access-launcher-not-show-in").to_string_lossy().to_string();
    let gnome = vec!["GNOME".to_string()];
    let kde = vec!["KDE".to_string()];
    assert!(parse_desktop_entry(&path, contents, None, Some(&kde)).is_some());
    assert!(parse_desktop_entry(&path, contents, None, Some(&gnome)).is_none());
}

#[test]
fn parse_desktop_entry_falls_back_to_filename_and_other_category() {
    let contents = "\n[Desktop Entry]\nType=Application\nExec=app\n";
    let file = temp_path("access-launcher-fallback");
    let entry = parse_desktop_entry(&file.to_string_lossy(), contents, None, None)
        .expect("entry present");
    let stem = file
        .file_stem()
        .and_then(|name| name.to_str())
        .expect("stem");
    assert_eq!(entry.name, stem);
    assert_eq!(entry.categories, vec!["Other".to_string()]);
}

#[test]
fn exec_looks_valid_handles_absolute_paths() {
    let existing = "/tmp".to_string();
    assert!(exec_looks_valid(&existing));

    let missing = format!("/tmp/access-launcher-missing-{}-{}", 0, 99999);
    assert!(!exec_looks_valid(&missing));
    assert!(exec_looks_valid("relative-command"));
}

#[test]
fn build_category_map_groups_entries_preserving_order() {
    let mut entries = vec![
        DesktopEntry {
            name: "bApp".to_string(),
            command: "app".to_string(),
            categories: vec!["Development".to_string()],
            path: "/tmp/bapp.desktop".to_string(),
        },
        DesktopEntry {
            name: "Aapp".to_string(),
            command: "app".to_string(),
            categories: vec!["Development".to_string()],
            path: "/tmp/aapp.desktop".to_string(),
        },
        DesktopEntry {
            name: "GameApp".to_string(),
            command: "app".to_string(),
            categories: vec!["Game".to_string()],
            path: "/tmp/gameapp.desktop".to_string(),
        },
    ];
    entries.sort_by_cached_key(|entry| entry.name.to_ascii_lowercase());

    let map = build_category_map(&entries);
    let dev_indices = map.get("Development").expect("development category");
    assert_eq!(entries[dev_indices[0]].name, "Aapp");
    assert_eq!(entries[dev_indices[1]].name, "bApp");
    assert!(map.contains_key("Games"));
}

fn candidate(dir: &str, file: &str, contents: &str) -> Candidate {
    let path = format!("{dir}/{file}");
    let entry = parse_desktop_entry(&path, contents, None, None).expect("entry present");
    let command_valid = exec_looks_valid(&entry.command);
    Candidate {
        entry,
        command_valid,
    }
}

#[test]
fn collect_desktop_entries_skips_valid_duplicates() {
    let first = candidate(
        "/data/dir1/applications",
        "duplicate.desktop",
        "\n[Desktop Entry]\nType=Application\nName=Valid Entry\nExec=/bin/true\nCategories=Utility;\n",
    );
    let second = candidate(
        "/data/dir2/applications",
        "duplicate.desktop",
        "\n[Desktop Entry]\nType=Application\nName=Duplicate Entry\nExec=/bin/false\nCategories=Development;\n",
    );
    let entries = select_entries(&vec![first, second]);
    let duplicate_entries: Vec<_> = entries
        .iter()
        .filter(|e| {
            (e.name == "Valid Entry" || e.name == "Duplicate Entry")
                && e.path.ends_with("/duplicate.desktop")
        })
        .collect();
    assert_eq!(
        duplicate_entries.len(),
        1,
        "Expected exactly one duplicate.desktop entry, found {}",
        duplicate_entries.len()
    );
    assert_eq!(duplicate_entries[0].name, "Valid Entry");
}

#[test]
fn collect_desktop_entries_replaces_invalid_with_valid_duplicate() {
    let first = candidate(
        "/data/invalid/applications",
        "test-app.desktop",
        "\n[Desktop Entry]\nType=Application\nName=Invalid Entry\nExec=/nonexistent/path/to/binary\nCategories=Utility;\n",
    );
    let second = candidate(
        "/data/valid/applications",
        "test-app.desktop",
        "\n[Desktop Entry]\nType=Application\nName=Valid Entry\nExec=/bin/true\nCategories=Utility;\n",
    );
    let entries = select_entries(&vec![first, second]);
    let test_entries: Vec<_> = entries
        .iter()
        .filter(|e| {
            (e.name == "Valid Entry" || e.name == "Invalid Entry")
                && e.path.ends_with("/test-app.desktop")
        })
        .collect();
    assert_eq!(
        test_entries.len(),
        1,
        "Expected exactly one test-app.desktop entry"
    );
    assert_eq!(test_entries[0].name, "Valid Entry");
    assert_eq!(test_entries[0].command, "/bin/true");
}
