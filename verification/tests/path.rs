use tex_io::io::{normalize_tex_path, try_normalize_tex_path};

#[test]
fn test_try_normalize_tex_path() {
    // edge cases
    assert_eq!(try_normalize_tex_path(""), Some("".into()));
    assert_eq!(try_normalize_tex_path("/"), Some("/".into()));
    assert_eq!(try_normalize_tex_path("//"), Some("/".into()));
    assert_eq!(try_normalize_tex_path("."), Some(".".into()));
    assert_eq!(try_normalize_tex_path("./"), Some(".".into()));
    assert_eq!(try_normalize_tex_path(".."), Some("..".into()));
    assert_eq!(try_normalize_tex_path("././/./"), Some(".".into()));
    assert_eq!(try_normalize_tex_path("/././/."), Some("/".into()));

    assert_eq!(
        try_normalize_tex_path("my/path/file.txt"),
        Some("my/path/file.txt".into())
    );
    // preserve spaces
    assert_eq!(
        try_normalize_tex_path("  my/pa  th/file .txt "),
        Some("  my/pa  th/file .txt ".into())
    );
    assert_eq!(
        try_normalize_tex_path("/my/path/file.txt"),
        Some("/my/path/file.txt".into())
    );
    assert_eq!(
        try_normalize_tex_path("./my///path/././file.txt"),
        Some("my/path/file.txt".into())
    );
    assert_eq!(
        try_normalize_tex_path("./../my/../../../file.txt"),
        Some("../../../file.txt".into())
    );
    assert_eq!(
        try_normalize_tex_path("././my//../path/../here/file.txt"),
        Some("here/file.txt".into())
    );
    assert_eq!(
        try_normalize_tex_path("./my/.././/path/../../here//file.txt"),
        Some("../here/file.txt".into())
    );

    assert_eq!(try_normalize_tex_path("/my/../../file.txt"), None);
    assert_eq!(
        try_normalize_tex_path("/my/./.././path//../../file.txt"),
        None
    );
}

#[test]
fn normalize_keeps_rooted_paths_rooted() {
    assert_eq!(try_normalize_tex_path("/a/../b"), Some("/b".to_string()));
    assert_eq!(try_normalize_tex_path("/a/b/.."), Some("/a".to_string()));
    assert_eq!(try_normalize_tex_path("/a/.."), Some("/".to_string()));
    assert_eq!(try_normalize_tex_path("/.."), None);
}

#[test]
fn normalize_counts_climbs_of_relative_paths() {
    assert_eq!(try_normalize_tex_path("../.."), Some("../..".to_string()));
    assert_eq!(try_normalize_tex_path("a/../.."), Some("..".to_string()));
    assert_eq!(try_normalize_tex_path("a/.."), Some(".".to_string()));
    assert_eq!(try_normalize_tex_path("../a/../b/"), Some("../b".to_string()));
}

#[test]
fn normalize_treats_only_whole_pieces_as_dots() {
    assert_eq!(try_normalize_tex_path("..."), Some("...".to_string()));
    assert_eq!(try_normalize_tex_path(".a/b."), Some(".a/b.".to_string()));
    assert_eq!(try_normalize_tex_path("a/ ./b"), Some("a/ ./b".to_string()));
    assert_eq!(try_normalize_tex_path("a/.. /b"), Some("a/.. /b".to_string()));
}

#[test]
fn normalize_handles_text_beyond_ascii() {
    assert_eq!(
        try_normalize_tex_path("./é/../ü//ß.tex"),
        Some("ü/ß.tex".to_string())
    );
}

#[test]
fn normalize_or_keep_hands_back_a_path_that_escapes_the_root() {
    assert_eq!(normalize_tex_path("/my/../../file.txt"), "/my/../../file.txt");
    assert_eq!(normalize_tex_path("./my//file.txt"), "my/file.txt");
    assert_eq!(normalize_tex_path(""), "");
}

#[test]
fn normal_form_is_its_own_normal_form() {
    let paths = [
        "",
        "/",
        ".",
        "..",
        "a",
        "/a/b",
        "../../a",
        "./my/.././/path/../../here//file.txt",
        "  my/pa  th/file .txt ",
        "a/b/../../..",
        "/a/./b/..//c/",
    ];
    for path in paths {
        let once = try_normalize_tex_path(path).unwrap();
        assert_eq!(try_normalize_tex_path(&once), Some(once.clone()));
        assert_eq!(once.is_empty(), path.is_empty());
    }
}

#[test]
fn relative_path_always_has_a_normal_form() {
    let paths = ["..", "../../..", "a/../../../..", "./..", " /..", "a//../.."];
    for path in paths {
        assert!(try_normalize_tex_path(path).is_some());
    }
    assert_eq!(try_normalize_tex_path("a/../../../.."), Some("../../..".to_string()));
    assert_eq!(try_normalize_tex_path(" /.."), Some(".".to_string()));
}
