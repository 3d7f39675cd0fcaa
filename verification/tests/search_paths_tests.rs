use flick::search_paths::{application_search_dirs, icon_search_dirs, join_path, split_colons};

#[test]
fn paths_are_joined_like_path_join() {
    assert_eq!(join_path("/home/ana", ".icons"), "/home/ana/.icons");
    assert_eq!(join_path("/usr/share/", "icons"), "/usr/share/icons");
    assert_eq!(join_path("", "icons"), "icons");
}

#[test]
fn colon_lists_are_split_like_str_split() {
    assert_eq!(split_colons("/a:/b"), vec!["/a".to_string(), "/b".to_string()]);
    assert_eq!(split_colons(""), vec!["".to_string()]);
    assert_eq!(split_colons(":x:"), vec!["".to_string(), "x".to_string(), "".to_string()]);
}

#[test]
fn icon_dirs_follow_the_xdg_variables() {
    assert_eq!(
        icon_search_dirs("/home/ana", None, None),
        vec![
            "/home/ana/.icons",
            "/home/ana/.local/share/icons",
            "/usr/local/share/icons",
            "/usr/share/icons",
            "/usr/share/pixmaps",
        ]
    );
    assert_eq!(
        icon_search_dirs("", Some("/data"), Some("/opt/share::/x/")),
        vec!["/opt/share/icons", "/x/icons", "/usr/share/pixmaps"]
    );
    assert_eq!(
        icon_search_dirs("/h", Some("/data"), Some("")),
        vec!["/h/.icons", "/data/icons", "/usr/share/pixmaps"]
    );
}

#[test]
fn application_dirs_are_listed_once() {
    assert_eq!(
        application_search_dirs("/home/ana", None),
        vec!["/usr/share/applications", "/usr/local/share/applications", "/home/ana/.local/share/applications"]
    );
    assert_eq!(
        application_search_dirs("", Some("/usr/share:/opt/share:/opt/share")),
        vec!["/usr/share/applications", "/usr/local/share/applications", "/opt/share/applications"]
    );
    assert_eq!(
        application_search_dirs("", Some("")),
        vec!["/usr/share/applications", "/usr/local/share/applications", "applications"]
    );
}
