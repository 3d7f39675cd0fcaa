use flick::apps::{
    icns_name_with, is_renderable_lower, is_true_lower, mime_for_lower, rank_for_lower,
    app_from_entry, app_icon_cache_key, best_icon_index, collect_desktop_apps, data_url,
    icns_file_name, icon_mime_type, icon_rank_of, icon_size_of, is_icon_candidate,
    parse_desktop_entry, path_icon_cache_key, sort_apps_by_name, strip_icon_extension, temp_icon_file_name, AppInfo,
    IconCandidate,
};

fn app(id: &str, name: &str) -> AppInfo {
    AppInfo { id: id.to_string(), name: name.to_string(), exec_cmd: id.to_string(), icon: String::new() }
}

#[test]
fn desktop_entries_are_read() {
    let content = "[Desktop Entry]\nName=  Text Editor \nExec=gedit %U\nIcon=accessories-text-editor\r\n\n[Desktop Action new]\nName=New Window\nExec=gedit --new\n";
    let e = parse_desktop_entry(content);
    assert_eq!(e.name, "Text Editor");
    assert_eq!(e.exec_cmd, "gedit %U");
    assert_eq!(e.icon, "accessories-text-editor");
    assert!(!e.no_display);
    assert!(!e.hidden);
    let a = app_from_entry("gedit.desktop", &e).expect("visible entry");
    assert_eq!(a.id, "gedit.desktop");
    assert_eq!(a.name, "Text Editor");
    assert_eq!(a.exec_cmd, "gedit");
    assert_eq!(a.icon, "accessories-text-editor");
}

#[test]
fn hidden_and_incomplete_entries_are_skipped() {
    let e = parse_desktop_entry("[Desktop Entry]\nName=X\nExec=x\nNoDisplay=TRUE\n");
    assert!(e.no_display);
    assert!(app_from_entry("x.desktop", &e).is_none());
    let e = parse_desktop_entry("[Desktop Entry]\nName=X\nExec=x\nHidden=true");
    assert!(e.hidden);
    assert!(app_from_entry("x.desktop", &e).is_none());
    let e = parse_desktop_entry("Name=X\nExec=x\n");
    assert_eq!(e.name, "");
    assert!(app_from_entry("x.desktop", &e).is_none());
    let e = parse_desktop_entry("[Desktop Entry]\nName=Term\nExec=term -e %f %F %k\n");
    let a = app_from_entry("term.desktop", &e).unwrap();
    assert_eq!(a.exec_cmd, "term -e");
    assert_eq!(a.icon, "system-run");
}

#[test]
fn desktop_files_collected_once_per_name() {
    let files = vec![
        ("a.desktop".to_string(), "[Desktop Entry]\nName=A\nExec=a\n".to_string()),
        ("notes.txt".to_string(), "[Desktop Entry]\nName=N\nExec=n\n".to_string()),
        ("h.desktop".to_string(), "[Desktop Entry]\nName=H\nExec=h\nHidden=true\n".to_string()),
        ("a.desktop".to_string(), "[Desktop Entry]\nName=A2\nExec=a2\n".to_string()),
        ("h.desktop".to_string(), "[Desktop Entry]\nName=H2\nExec=h2\n".to_string()),
    ];
    let apps = collect_desktop_apps(&files);
    assert_eq!(apps.len(), 2);
    assert_eq!(apps[0].name, "A");
    assert_eq!(apps[1].name, "H2");
}

#[test]
fn apps_sorted_by_lower_case_name() {
    let sorted = sort_apps_by_name(vec![app("1", "zeta"), app("2", "Alpha"), app("3", "beta"), app("4", "alpha")]);
    let names: Vec<&str> = sorted.iter().map(|a| a.name.as_str()).collect();
    assert_eq!(names, vec!["Alpha", "alpha", "beta", "zeta"]);
    assert!(sort_apps_by_name(vec![]).is_empty());
    let same_key = sort_apps_by_name(vec![app("5", "alpha"), app("6", "ALPHA"), app("7", "Alpha")]);
    let ids: Vec<&str> = same_key.iter().map(|a| a.id.as_str()).collect();
    assert_eq!(ids, vec!["5", "6", "7"]);
}

#[test]
fn icon_mime_types() {
    assert_eq!(icon_mime_type("PNG"), Some("image/png".to_string()));
    assert_eq!(icon_mime_type("svg"), Some("image/svg+xml".to_string()));
    assert_eq!(icon_mime_type("jpeg"), Some("image/jpeg".to_string()));
    assert_eq!(icon_mime_type("jpg"), Some("image/jpeg".to_string()));
    assert_eq!(icon_mime_type("gif"), Some("image/gif".to_string()));
    assert_eq!(icon_mime_type("ico"), Some("image/x-icon".to_string()));
    assert_eq!(icon_mime_type("xpm"), None);
}

#[test]
fn data_urls_hold_base64() {
    assert_eq!(data_url("image/png", b"hello"), "data:image/png;base64,aGVsbG8=");
    assert_eq!(data_url("image/gif", b""), "data:image/gif;base64,");
}

#[test]
fn icon_sizes_and_ranks() {
    assert_eq!(icon_size_of("/usr/share/icons/hicolor/256x256/apps/a.png"), 256);
    assert_eq!(icon_size_of("/usr/share/icons/a.png"), 0);
    assert_eq!(icon_size_of("/icons/x/48x48/a.png"), 0);
    assert_eq!(icon_size_of("/icons/99999999999x1/a.png"), 0);
    assert_eq!(icon_rank_of("PNG"), 3);
    assert_eq!(icon_rank_of("svg"), 2);
    assert_eq!(icon_rank_of("jpg"), 1);
}

#[test]
fn best_icon_prefers_png_then_size_then_first() {
    let c = |p: &str, e: &str| IconCandidate { path: p.to_string(), ext: e.to_string() };
    assert_eq!(best_icon_index(&vec![]), None);
    let cands = vec![
        c("/i/512x512/a.svg", "svg"),
        c("/i/32x32/a.png", "png"),
        c("/i/128x128/a.png", "png"),
        c("/i/128x128/b/a.png", "png"),
        c("/i/a.jpg", "jpg"),
    ];
    assert_eq!(best_icon_index(&cands), Some(2));
    assert!(is_icon_candidate("PNG", "firefox", "firefox"));
    assert!(!is_icon_candidate("xpm", "firefox", "firefox"));
    assert!(!is_icon_candidate("png", "firefox-esr", "firefox"));
}

#[test]
fn icon_names_and_keys() {
    assert_eq!(strip_icon_extension("firefox.png"), "firefox");
    assert_eq!(strip_icon_extension("org.gnome.Terminal"), "org.gnome.Terminal");
    assert_eq!(strip_icon_extension("a.png.svg"), "a.png");
    assert_eq!(app_icon_cache_key(&app("a.desktop", "A")), "a.desktop:");
    assert_eq!(path_icon_cache_key("/x"), "path:/x");
    assert_eq!(icns_file_name("AppIcon"), "AppIcon.icns");
    assert_eq!(icns_file_name("AppIcon.ICNS"), "AppIcon.ICNS");
}

#[test]
fn temporary_icon_names() {
    assert_eq!(temp_icon_file_name(4242, 0), "flick-icon-4242-0.png");
    assert_eq!(temp_icon_file_name(7, 19), "flick-icon-7-19.png");
}

#[test]
fn field_codes_are_removed_from_the_left() {
    let e = parse_desktop_entry("[Desktop Entry]\nName=X\nExec=foo %%f bar %k\n");
    let a = app_from_entry("x.desktop", &e).expect("visible entry");
    assert_eq!(a.exec_cmd, "foo % bar");
    assert_eq!(strip_icon_extension("icon.PNG"), "icon.PNG");
    assert_eq!(strip_icon_extension("photo.jpeg"), "photo");
}

#[test]
fn decisions_on_lower_case_text() {
    assert_eq!(mime_for_lower("png"), Some("image/png".to_string()));
    assert_eq!(mime_for_lower("PNG"), None);
    assert_eq!(rank_for_lower("svg"), 2);
    assert_eq!(rank_for_lower("SVG"), 1);
    assert!(is_renderable_lower("jpeg"));
    assert!(!is_renderable_lower("xpm"));
    assert_eq!(icns_name_with("App.ICNS", "app.icns"), "App.ICNS");
    assert_eq!(icns_name_with("App", "app"), "App.icns");
    assert!(is_true_lower("true"));
    assert!(!is_true_lower("True"));
}
