use access_launcher::category::{all_categories, build_category_map, map_categories, Category};
use access_launcher::collect::{select_entries, Candidate};
use access_launcher::dirs::{desktop_dirs, push_unique, SearchConfig};
use access_launcher::entry::{desktop_list, parse_desktop_entry, DesktopEntry};
use access_launcher::exec::{exec_check, exec_check_from_words, exec_verdict, ExecCheck};
use access_launcher::locale::{matches_lang_tag, normalize_lang_tag, parse_bool};
use access_launcher::order::cmp_ignore_ascii_case;
use std::cmp::Ordering;

fn entry(name: &str, command: &str, tags: &[&str], path: &str) -> DesktopEntry {
    DesktopEntry {
        name: name.to_string(),
        command: command.to_string(),
        categories: tags.iter().map(|t| t.to_string()).collect(),
        path: path.to_string(),
    }
}

fn cand(name: &str, path: &str, valid: bool) -> Candidate {
    Candidate {
        entry: entry(name, "app", &["Utility"], path),
        command_valid: valid,
    }
}

fn names(v: &[DesktopEntry]) -> Vec<String> {
    v.iter().map(|e| e.name.clone()).collect()
}

fn strings(v: &[&str]) -> Vec<String> {
    v.iter().map(|s| s.to_string()).collect()
}

#[test]
fn normalize_keeps_text_before_first_stop() {
    assert_eq!(normalize_lang_tag("sr_RS@latin.UTF-8"), "sr_RS");
    assert_eq!(normalize_lang_tag(".UTF-8"), "");
    assert_eq!(normalize_lang_tag(""), "");
}

#[test]
fn lang_match_rules() {
    assert!(matches_lang_tag("en_US", "en_US.UTF-8"));
    assert!(matches_lang_tag("de", "de_DE@euro"));
    assert!(!matches_lang_tag("de", "dex_DE"));
    assert!(!matches_lang_tag("fr", "en_US"));
    assert!(!matches_lang_tag("", ""));
    assert!(!matches_lang_tag("en", ".UTF-8"));
}

#[test]
fn parse_bool_trims_and_rejects_others() {
    assert!(parse_bool("  TRUE \t"));
    assert!(parse_bool(" 1"));
    assert!(!parse_bool("tru"));
    assert!(!parse_bool("yess"));
    assert!(!parse_bool(""));
    assert!(!parse_bool("on"));
}

#[test]
fn round_trip_record_fields() {
    let text = "[Desktop Entry]\nType=Application\nName=Sample App\nExec=/usr/bin/sample --flag\nCategories=Utility;Development;\n";
    let e = parse_desktop_entry("/apps/sample.desktop", text, None, None).expect("record");
    assert_eq!(e.name, "Sample App");
    assert_eq!(e.command, "/usr/bin/sample --flag");
    assert_eq!(e.categories, strings(&["Utility", "Development"]));
    assert_eq!(e.path, "/apps/sample.desktop");
}

#[test]
fn localized_name_precedence() {
    let text = "[Desktop Entry]\nType=Application\nName=Default Name\nName[en_US]=Localized Name\nName[fr]=Nom\nExec=app\n";
    let e = parse_desktop_entry("/a/x.desktop", text, Some("en_US.UTF-8"), None).unwrap();
    assert_eq!(e.name, "Localized Name");
    let e = parse_desktop_entry("/a/x.desktop", text, None, None).unwrap();
    assert_eq!(e.name, "Default Name");
    let e = parse_desktop_entry("/a/x.desktop", text, Some("de_DE"), None).unwrap();
    assert_eq!(e.name, "Default Name");
    let text2 = "[Desktop Entry]\nType=Application\nName[en]=First\nName[en_US]=Second\nExec=app\n";
    let e = parse_desktop_entry("/a/x.desktop", text2, Some("en_US"), None).unwrap();
    assert_eq!(e.name, "Second");
}

#[test]
fn visibility_filters_with_several_desktops() {
    let only = "[Desktop Entry]\nType=Application\nName=F\nExec=app\nOnlyShowIn=GNOME;\n";
    let not = "[Desktop Entry]\nType=Application\nName=F\nExec=app\nNotShowIn=GNOME;\n";
    let both = strings(&["KDE", "GNOME"]);
    let kde = strings(&["KDE"]);
    assert!(parse_desktop_entry("/a/f.desktop", only, None, Some(&both)).is_some());
    assert!(parse_desktop_entry("/a/f.desktop", only, None, Some(&kde)).is_none());
    assert!(parse_desktop_entry("/a/f.desktop", not, None, Some(&both)).is_none());
    assert!(parse_desktop_entry("/a/f.desktop", not, None, Some(&kde)).is_some());
    assert!(parse_desktop_entry("/a/f.desktop", only, None, None).is_some());
    assert!(parse_desktop_entry("/a/f.desktop", not, None, None).is_some());
}

#[test]
fn rejections() {
    let link = "[Desktop Entry]\nType=Link\nName=L\nExec=app\n";
    assert!(parse_desktop_entry("/a/l.desktop", link, None, None).is_none());
    let untyped = "[Desktop Entry]\nName=L\nExec=app\n";
    assert!(parse_desktop_entry("/a/l.desktop", untyped, None, None).is_none());
    let hidden = "[Desktop Entry]\nType=Application\nName=H\nHidden=true\n";
    assert!(parse_desktop_entry("/a/h.desktop", hidden, None, None).is_none());
    let nodisplay = "[Desktop Entry]\nType=Application\nName=H\nNoDisplay=Yes\n";
    assert!(parse_desktop_entry("/a/h.desktop", nodisplay, None, None).is_none());
    let shown = "[Desktop Entry]\nType=Application\nName=H\nNoDisplay=false\n";
    assert!(parse_desktop_entry("/a/h.desktop", shown, None, None).is_some());
    assert!(parse_desktop_entry("/a/h.desktop", "", None, None).is_none());
}

#[test]
fn section_comments_and_malformed_lines() {
    let text = "# comment\nType=Link\n[Other Section]\nType=Link\n[Desktop Entry]\n  # Name=Commented\nName = Spaced Key\nName=  Padded  \nnot a pair\nType=Application\n[Desktop Action new]\nName=Action\nHidden=true\n";
    let e = parse_desktop_entry("/a/p.desktop", text, None, None).expect("record");
    assert_eq!(e.name, "Padded");
    assert_eq!(e.command, "");
    assert_eq!(e.categories, strings(&["Other"]));
}

#[test]
fn crlf_lines_and_empty_category_pieces() {
    let text = "[Desktop Entry]\r\nType=Application\r\nName=Win\r\nCategories=;Game;;Utility\r\n";
    let e = parse_desktop_entry("/a/w.desktop", text, None, None).expect("record");
    assert_eq!(e.name, "Win");
    assert_eq!(e.categories, strings(&["Game", "Utility"]));
}

#[test]
fn fallback_name_from_file_stem() {
    let text = "[Desktop Entry]\nType=Application\nExec=app\n";
    let e = parse_desktop_entry("/usr/share/applications/org.example.Tool.desktop", text, None, None)
        .unwrap();
    assert_eq!(e.name, "org.example.Tool");
    let e = parse_desktop_entry("/x/.hidden", text, None, None).unwrap();
    assert_eq!(e.name, ".hidden");
    let e = parse_desktop_entry("plain", text, None, None).unwrap();
    assert_eq!(e.name, "plain");
    assert!(parse_desktop_entry("/x/dir/", text, None, None).is_none());
    assert_eq!(map_categories(&e.categories), Category::Other);
}

#[test]
fn exec_check_cases() {
    assert!(matches!(exec_check("   "), ExecCheck::Invalid));
    assert!(matches!(exec_check(""), ExecCheck::Invalid));
    assert!(matches!(exec_check("firefox %u"), ExecCheck::Valid));
    match exec_check("  /usr/bin/env FOO=bar ") {
        ExecCheck::MustExist(p) => assert_eq!(p, "/usr/bin/env"),
        other => panic!("unexpected {:?}", other),
    }
    match exec_check(" '/non/existent/path' ") {
        ExecCheck::NeedsShellSplit(t) => assert_eq!(t, "'/non/existent/path'"),
        other => panic!("unexpected {:?}", other),
    }
    assert!(matches!(exec_check("sh -c \"x\""), ExecCheck::NeedsShellSplit(_)));
}

#[test]
fn exec_check_from_split_words() {
    assert!(matches!(exec_check_from_words(None), ExecCheck::Valid));
    assert!(matches!(exec_check_from_words(Some(vec![])), ExecCheck::Valid));
    assert!(matches!(
        exec_check_from_words(Some(strings(&["relative-command"]))),
        ExecCheck::Valid
    ));
    match exec_check_from_words(Some(strings(&["/non/existent/path", "--arg=val"]))) {
        ExecCheck::MustExist(p) => assert_eq!(p, "/non/existent/path"),
        other => panic!("unexpected {:?}", other),
    }
}

#[test]
fn exec_verdicts() {
    assert!(!exec_verdict(&ExecCheck::Invalid));
    assert!(exec_verdict(&ExecCheck::Valid));
    assert!(exec_verdict(&ExecCheck::NeedsShellSplit("'x'".to_string())));
    assert!(exec_verdict(&ExecCheck::MustExist("/".to_string())));
    assert!(!exec_verdict(&ExecCheck::MustExist(
        "/non/existent/path/for/this/check".to_string()
    )));
    let quoted = exec_check_from_words(Some(strings(&["/non/existent/path"])));
    let plain = exec_check("/non/existent/path");
    assert_eq!(exec_verdict(&quoted), exec_verdict(&plain));
}

#[test]
fn override_policy_four_cases() {
    let cases = [
        (false, true, "second"),
        (true, true, "first"),
        (true, false, "first"),
        (false, false, "first"),
    ];
    for (a, b, want) in cases {
        let v = vec![
            cand("first", "/one/applications/app.desktop", a),
            cand("second", "/two/applications/app.desktop", b),
        ];
        let r = select_entries(&v);
        assert_eq!(names(&r), vec![want.to_string()]);
    }
}

#[test]
fn override_keeps_first_valid_of_three() {
    let v = vec![
        cand("one", "/a/app.desktop", false),
        cand("two", "/b/app.desktop", true),
        cand("three", "/c/app.desktop", true),
        cand("other", "/c/other.desktop", false),
    ];
    assert_eq!(names(&select_entries(&v)), strings(&["other", "two"]));
}

#[test]
fn own_descriptor_is_left_out() {
    let v = vec![
        cand("Access Launcher", "/a/access-launcher.desktop", true),
        cand("Editor", "/a/editor.desktop", true),
    ];
    assert_eq!(names(&select_entries(&v)), strings(&["Editor"]));
    assert!(select_entries(&vec![]).is_empty());
}

#[test]
fn final_list_sorted_ignoring_case_and_stable() {
    let v = vec![
        cand("beta", "/a/1.desktop", true),
        cand("Alpha", "/a/2.desktop", true),
        cand("ALPHA", "/a/3.desktop", true),
        cand("alph", "/a/4.desktop", true),
        cand("Beta", "/a/5.desktop", true),
        cand("_x", "/a/6.desktop", true),
    ];
    let r = select_entries(&v);
    assert_eq!(names(&r), strings(&["_x", "alph", "Alpha", "ALPHA", "beta", "Beta"]));
    assert_eq!(r[2].path, "/a/2.desktop");
    assert_eq!(r[3].path, "/a/3.desktop");
}

#[test]
fn compare_ignoring_ascii_case() {
    assert_eq!(cmp_ignore_ascii_case("abc", "ABD"), Ordering::Less);
    assert_eq!(cmp_ignore_ascii_case("ABC", "abc"), Ordering::Equal);
    assert_eq!(cmp_ignore_ascii_case("abcd", "ABC"), Ordering::Greater);
    assert_eq!(cmp_ignore_ascii_case("", "a"), Ordering::Less);
    assert_eq!(cmp_ignore_ascii_case("Z", "a"), Ordering::Greater);
    assert_eq!(cmp_ignore_ascii_case("é", "z"), Ordering::Greater);
}

#[test]
fn classification_priority() {
    assert_eq!(map_categories(&strings(&["TerminalEmulator", "Utility"])), Category::TerminalEmulator);
    assert_eq!(map_categories(&strings(&["Utility", "TerminalEmulator"])), Category::TerminalEmulator);
    assert_eq!(map_categories(&strings(&["Utility", "WebBrowser"])), Category::Internet);
    assert_eq!(map_categories(&strings(&["Settings", "Office"])), Category::Office);
    assert_eq!(map_categories(&strings(&["TextEditor", "Utility"])), Category::TextEditors);
    assert_eq!(map_categories(&strings(&["Video"])), Category::AudioVideo);
    assert_eq!(map_categories(&strings(&["IDE"])), Category::Development);
    assert_eq!(map_categories(&strings(&["Photography"])), Category::Graphics);
    assert_eq!(map_categories(&strings(&["Accessories"])), Category::Accessories);
    assert_eq!(map_categories(&strings(&["Games"])), Category::Games);
    assert_eq!(map_categories(&strings(&["System"])), Category::System);
    assert_eq!(map_categories(&strings(&["utility"])), Category::Other);
    assert_eq!(map_categories(&[]), Category::Other);
}

#[test]
fn category_labels_and_map() {
    let labels: Vec<&str> = all_categories().iter().map(|c| c.label()).collect();
    assert_eq!(
        labels,
        vec![
            "Accessories",
            "Audio/Video",
            "Development",
            "Games",
            "Graphics",
            "Text Editors",
            "Internet",
            "Office",
            "System",
            "Terminal Emulator",
            "Utilities",
            "Other",
        ]
    );
    assert_eq!(Category::from_label("Audio/Video"), Some(Category::AudioVideo));
    assert_eq!(Category::from_label("Nope"), None);
    let entries = vec![
        entry("a", "x", &["Game"], "/a"),
        entry("b", "x", &["Other"], "/b"),
        entry("c", "x", &["Game", "Network"], "/c"),
        entry("d", "x", &["Game"], "/d"),
    ];
    let map = build_category_map(&entries);
    assert_eq!(map.get("Games").unwrap(), &vec![0usize, 3]);
    assert_eq!(map.get("Internet").unwrap(), &vec![2usize]);
    assert_eq!(map.get("Other").unwrap(), &vec![1usize]);
    assert!(map.get("Office").is_none());
    assert!(!map.contains_key("Office"));
    assert!(!map.contains_key("Nope"));
    assert_eq!(map.bucket(Category::Office).len(), 0);
}

fn config(
    data_home: Option<&str>,
    data_dirs: Option<&str>,
    home: Option<&str>,
    user: Option<&str>,
    profiles: Option<&str>,
) -> SearchConfig {
    SearchConfig {
        data_home: data_home.map(|s| s.to_string()),
        data_dirs: data_dirs.map(|s| s.to_string()),
        home: home.map(|s| s.to_string()),
        user: user.map(|s| s.to_string()),
        profiles: profiles.map(|s| s.to_string()),
    }
}

#[test]
fn search_path_with_everything_set() {
    let cfg = config(
        Some("/data"),
        Some("/sys1:/sys2/::/sys1"),
        Some("/home/u"),
        Some("u"),
        Some("/p1  /p2/"),
    );
    assert_eq!(
        desktop_dirs(&cfg),
        strings(&[
            "/data/applications",
            "/data/flatpak/exports/share/applications",
            "/sys1/applications",
            "/sys2/applications",
            "/var/lib/flatpak/exports/share/applications",
            "/run/current-system/sw/share/applications",
            "/nix/var/nix/profiles/default/share/applications",
            "/home/u/.nix-profile/share/applications",
            "/etc/profiles/per-user/u/share/applications",
            "/p1/share/applications",
            "/p2/share/applications",
        ])
    );
}

#[test]
fn search_path_fallbacks() {
    let cfg = config(Some(""), Some(":"), Some("/home/u"), Some(""), None);
    assert_eq!(
        desktop_dirs(&cfg),
        strings(&[
            "/home/u/.local/share/applications",
            "/home/u/.local/share/flatpak/exports/share/applications",
            "/usr/local/share/applications",
            "/usr/share/applications",
            "/var/lib/flatpak/exports/share/applications",
            "/run/current-system/sw/share/applications",
            "/nix/var/nix/profiles/default/share/applications",
            "/home/u/.nix-profile/share/applications",
        ])
    );
    let none = config(None, None, None, None, Some("/usr"));
    assert_eq!(
        desktop_dirs(&none),
        strings(&[
            "/usr/local/share/applications",
            "/usr/share/applications",
            "/var/lib/flatpak/exports/share/applications",
            "/run/current-system/sw/share/applications",
            "/nix/var/nix/profiles/default/share/applications",
        ])
    );
}

#[test]
fn push_unique_drops_repeats() {
    let mut dirs = strings(&["/a"]);
    push_unique(&mut dirs, "/b".to_string());
    push_unique(&mut dirs, "/a".to_string());
    push_unique(&mut dirs, "/b".to_string());
    assert_eq!(dirs, strings(&["/a", "/b"]));
}

#[test]
fn desktop_list_splits_on_colons() {
    assert_eq!(desktop_list("ubuntu:GNOME"), strings(&["ubuntu", "GNOME"]));
    assert_eq!(desktop_list("::KDE:"), strings(&["KDE"]));
    assert!(desktop_list("").is_empty());
}
