use applist::paths::{
    applications_directory, descriptor_path, join, path_ends_in_applications,
    path_has_descriptor_extension, path_under_transient_root,
};
use std::path::Path;

#[test]
fn the_applications_directory_of_a_root() {
    assert_eq!(applications_directory("/usr/share"), "/usr/share/applications");
    assert_eq!(applications_directory("/usr/share/"), "/usr/share/applications");
    assert_eq!(applications_directory("/usr/share/applications"), "/usr/share/applications");
    assert_eq!(applications_directory("/usr/share/applications/"), "/usr/share/applications/");
    assert_eq!(
        applications_directory("/home/u/.local/share/applications"),
        "/home/u/.local/share/applications"
    );
    assert_eq!(applications_directory("/usr/share/myapplications"), "/usr/share/myapplications/applications");
    assert_eq!(applications_directory("/usr/applications/share"), "/usr/applications/share/applications");
    assert_eq!(applications_directory(""), "applications");
    assert_eq!(applications_directory("/"), "/applications");
    assert_eq!(applications_directory("applications"), "applications");
}

#[test]
fn join_puts_one_slash_between() {
    assert_eq!(join("/home/u", ".local/share/applications"), "/home/u/.local/share/applications");
    assert_eq!(join("/home/u/", ".local/share/applications"), "/home/u/.local/share/applications");
    assert_eq!(join("", "applications"), "applications");
    assert_eq!(join("/", "applications"), "/applications");
    assert_eq!(join("a//", "b"), "a//b");
}

#[test]
fn descriptor_paths() {
    assert!(descriptor_path("/usr/share/applications/firefox.desktop"));
    assert!(descriptor_path("relative/a.desktop"));
    assert!(descriptor_path("/var/tmp/a.desktop"));
    assert!(descriptor_path("/tmpx/a.desktop"));
    assert!(descriptor_path("tmp/a.desktop"));
    assert!(descriptor_path("/usr/tmp/a.desktop"));
    assert!(descriptor_path("/a.b.desktop"));
    assert!(!descriptor_path("/tmp/a.desktop"));
    assert!(!descriptor_path("/tmp/deep/er/a.desktop"));
    assert!(!descriptor_path("//tmp/a.desktop"));
    assert!(!descriptor_path("/./tmp/a.desktop"));
    assert!(!descriptor_path("/usr/share/applications/firefox.desktop.bak"));
    assert!(!descriptor_path("/usr/share/applications/firefox.Desktop"));
    assert!(!descriptor_path("/usr/share/applications/firefox"));
    assert!(!descriptor_path("/usr/share/applications/.desktop"));
    assert!(!descriptor_path("/usr/share/applications/desktop"));
    assert!(!descriptor_path(""));
}

#[test]
fn the_extension_is_read_off_the_last_name() {
    assert!(path_has_descriptor_extension("a.desktop"));
    assert!(path_has_descriptor_extension("a.desktop/"));
    assert!(path_has_descriptor_extension("a.desktop/."));
    assert!(path_has_descriptor_extension("..desktop"));
    assert!(!path_has_descriptor_extension("a.desktop/.."));
    assert!(!path_has_descriptor_extension("a.desktop/b"));
    assert!(!path_has_descriptor_extension(".desktop"));
    assert!(!path_has_descriptor_extension("adesktop"));
}

#[test]
fn the_transient_root_is_tmp_under_the_root() {
    assert!(path_under_transient_root("/tmp"));
    assert!(path_under_transient_root("/tmp/"));
    assert!(path_under_transient_root("/tmp/x"));
    assert!(path_under_transient_root("///tmp//x"));
    assert!(!path_under_transient_root("tmp/x"));
    assert!(!path_under_transient_root("./tmp/x"));
    assert!(!path_under_transient_root("/tmpx"));
    assert!(!path_under_transient_root("/x/tmp"));
    assert!(!path_under_transient_root("/../tmp"));
    assert!(!path_under_transient_root("/"));
    assert!(!path_under_transient_root(""));
}

fn sample_paths() -> Vec<String> {
    let pieces = ["", ".", "..", "tmp", "applications", "a.desktop", ".desktop", "x", "tmp.desktop",
        "applications.desktop", "a.b", "é.desktop", "desktop"];
    let mut paths: Vec<String> = Vec::new();
    for lead in ["", "/"] {
        for a in pieces {
            paths.push(format!("{}{}", lead, a));
            for b in pieces {
                paths.push(format!("{}{}/{}", lead, a, b));
                for c in pieces {
                    paths.push(format!("{}{}/{}/{}", lead, a, b, c));
                    paths.push(format!("{}{}/{}/{}/", lead, a, b, c));
                }
            }
        }
    }
    paths
}

#[test]
fn the_path_questions_agree_with_the_standard_library() {
    for p in sample_paths() {
        let std_path = Path::new(&p);
        assert_eq!(path_ends_in_applications(&p), std_path.ends_with("applications"), "{:?}", p);
        assert_eq!(path_under_transient_root(&p), std_path.starts_with("/tmp"), "{:?}", p);
        assert_eq!(
            path_has_descriptor_extension(&p),
            std_path.extension().and_then(|e| e.to_str()) == Some("desktop"),
            "{:?}",
            p
        );
        assert_eq!(Path::new(&join(&p, "applications")), std_path.join("applications"), "{:?}", p);
        assert_eq!(
            join(&p, ".local/share/applications"),
            std_path.join(".local/share/applications").to_string_lossy(),
            "{:?}",
            p
        );
        let dir = if std_path.ends_with("applications") {
            std_path.to_path_buf()
        } else {
            std_path.join("applications")
        };
        assert_eq!(applications_directory(&p), dir.to_string_lossy(), "{:?}", p);
    }
}
