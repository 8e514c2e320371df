use sensor_ingest::paths::is_contained_path;
use sensor_ingest::paths::join_below;
use sensor_ingest::text::chars_of;

#[test]
fn plain_relative_paths_stay_below() {
    assert!(is_contained_path("a.csv"));
    assert!(is_contained_path("dir/b.txt"));
    assert!(is_contained_path("dir/"));
    assert!(is_contained_path("./a"));
    assert!(is_contained_path("a/./b"));
}

#[test]
fn dots_inside_a_name_are_no_parent_step() {
    assert!(is_contained_path("a..b"));
    assert!(is_contained_path("..a/b"));
    assert!(is_contained_path("a../b"));
    assert!(is_contained_path("a/...").eq(&true));
    assert!(is_contained_path("PM2.5"));
}

#[test]
fn traversal_paths_are_refused() {
    assert!(!is_contained_path("../../etc/x"));
    assert!(!is_contained_path("/etc/x"));
    assert!(!is_contained_path(".."));
    assert!(!is_contained_path("a/.."));
    assert!(!is_contained_path("a/../b"));
    assert!(!is_contained_path("a/../../b"));
    assert!(!is_contained_path("..\\x"));
    assert!(!is_contained_path("a\\..\\b"));
    assert!(!is_contained_path("\\x"));
}

#[test]
fn empty_path_and_nul_are_refused() {
    assert!(!is_contained_path(""));
    assert!(!is_contained_path("a\0b"));
    assert!(!is_contained_path("a/b\0"));
}

#[test]
fn join_puts_one_stroke_between() {
    assert_eq!(join_below("data/unzipped", "a/b.csv"), "data/unzipped/a/b.csv");
    assert_eq!(join_below("data/unzipped/", "x"), "data/unzipped/x");
    assert_eq!(join_below("", "x"), "x");
    assert_eq!(join_below("out", "dir/"), "out/dir/");
    assert_eq!(join_below("/", "x"), "/x");
}

#[test]
fn chars_of_gives_every_character() {
    assert_eq!(chars_of("a/é∂"), vec!['a', '/', 'é', '∂']);
    assert_eq!(chars_of(""), Vec::<char>::new());
}
