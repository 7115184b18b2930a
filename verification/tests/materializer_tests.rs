use relay::materializer::{
    file_save_target, image_save_target, resolve_collision, sanitize_file_name, u64_to_string,
};

#[test]
fn decimal_rendering() {
    assert_eq!(u64_to_string(0), "0");
    assert_eq!(u64_to_string(7), "7");
    assert_eq!(u64_to_string(1712345678), "1712345678");
    assert_eq!(u64_to_string(u64::MAX), "18446744073709551615");
}

#[test]
fn sanitize_keeps_base_component() {
    assert_eq!(sanitize_file_name("notes.txt"), Some(String::from("notes.txt")));
    assert_eq!(sanitize_file_name("dir/sub/notes.txt"), Some(String::from("notes.txt")));
    assert_eq!(sanitize_file_name("../../etc/passwd"), Some(String::from("passwd")));
}

#[test]
fn sanitize_rejects_traversal_and_empty() {
    assert_eq!(sanitize_file_name(""), None);
    assert_eq!(sanitize_file_name("dir/"), None);
    assert_eq!(sanitize_file_name("."), None);
    assert_eq!(sanitize_file_name(".."), None);
    assert_eq!(sanitize_file_name("a/.."), None);
}

#[test]
fn save_targets() {
    assert_eq!(file_save_target("x/a.txt"), Some(String::from("files/a.txt")));
    assert_eq!(file_save_target(".."), None);
    assert_eq!(image_save_target(5), "images/5.png");
    assert_eq!(image_save_target(1712345678), "images/1712345678.png");
}

#[test]
fn collision_suffix_goes_before_extension() {
    assert_eq!(resolve_collision("files/a.txt", 99), "files/a_99.txt");
    assert_eq!(resolve_collision("images/5.png", 8), "images/5_8.png");
    assert_eq!(resolve_collision("files/noext", 7), "files/noext_7");
    // a leading dot opens no extension
    assert_eq!(resolve_collision("files/.bashrc", 3), "files/.bashrc_3");
}

#[test]
fn two_saves_of_one_name_get_distinct_paths() {
    // both clients send a file named a.txt in one run
    let first = file_save_target("a.txt").unwrap();
    // the second save finds the first on disk and falls back
    let second = resolve_collision(&first, 1712345678);
    assert_eq!(first, "files/a.txt");
    assert_eq!(second, "files/a_1712345678.txt");
    assert_ne!(first, second);
}
