use luajoin::path::parse_path;

#[test]
fn relative_path() {
    let cur_path = "main_dir/file";
    let next_path = "./hello";

    assert_eq!(parse_path(cur_path, next_path), "main_dir/hello");
}

#[test]
fn absolute_path() {
    let cur_path = "main_dir";
    let next_path = "module";

    assert_eq!(parse_path(cur_path, next_path), "module");
}

#[test]
fn two_dots_path() {
    let cur_path = "dir/subdir/file";
    let next_path = "../other";

    assert_eq!(parse_path(cur_path, next_path), "dir/other");
}

#[test]
fn sibling_of_a_file() {
    assert_eq!(parse_path("a/b", "./c"), "a/c");
}

#[test]
fn up_from_a_nested_file() {
    assert_eq!(parse_path("a/b/c", "../d"), "a/d");
}

#[test]
fn chain_from_the_entry_module() {
    assert_eq!(parse_path("main", "./../lib/helper"), "lib/helper");
}

#[test]
fn directory_module_asks_from_its_init() {
    assert_eq!(parse_path("ui/init", "./button"), "ui/button");
}

#[test]
fn reference_without_dots_is_kept_whatever_the_caller() {
    assert_eq!(parse_path("a/b/c", "foo/bar"), "foo/bar");
    assert_eq!(parse_path("", "foo//bar/"), "foo//bar/");
    assert_eq!(parse_path("x", ""), "");
    assert_eq!(parse_path("x", "a.b/c..d"), "a.b/c..d");
}

#[test]
fn dots_in_the_middle_start_from_nothing() {
    assert_eq!(parse_path("a/b", "x/./y"), "y");
    assert_eq!(parse_path("a/b", "x/y/z/../w"), "x/w");
}

#[test]
fn popping_an_empty_path_is_harmless() {
    assert_eq!(parse_path("a", "../../x"), "x");
    assert_eq!(parse_path("a", "."), "");
    assert_eq!(parse_path("a/b", ".."), "");
}
