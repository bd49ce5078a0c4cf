use luajoin::intake::{changed_module, module_key, slashed, starts_with, strip_suffix};

#[test]
fn endings_in_order_of_priority() {
    assert_eq!(module_key("data/items.json"), Some(String::from("data/items")));
    assert_eq!(module_key("ui/init.lua"), Some(String::from("ui")));
    assert_eq!(module_key("ui/button.lua"), Some(String::from("ui/button")));
    assert_eq!(module_key("main.lua"), Some(String::from("main")));
    assert_eq!(module_key("init.lua"), Some(String::from("init")));
    assert_eq!(module_key("a/init.lua.json"), Some(String::from("a/init.lua")));
}

#[test]
fn other_files_are_ignored() {
    assert_eq!(module_key("notes.txt"), None);
    assert_eq!(module_key("lua"), None);
    assert_eq!(module_key(""), None);
    assert_eq!(module_key("main.luau"), None);
}

#[test]
fn bare_endings_give_the_empty_key() {
    assert_eq!(module_key(".lua"), Some(String::new()));
    assert_eq!(module_key(".json"), Some(String::new()));
    assert_eq!(module_key("/init.lua"), Some(String::new()));
}

#[test]
fn changed_file_below_the_source_directory() {
    assert_eq!(
        changed_module("/home/me/proj/src/ui/button.lua", "/home/me/proj", "src"),
        Some(String::from("ui/button"))
    );
    assert_eq!(
        changed_module("/home/me/proj/src/ui/init.lua", "/home/me/proj", "src"),
        Some(String::from("ui"))
    );
    assert_eq!(
        changed_module("/home/me/proj/src/data.json", "/home/me/proj", "src"),
        Some(String::from("data"))
    );
}

#[test]
fn backslashes_count_as_slashes() {
    assert_eq!(
        changed_module("C:\\proj\\src\\ui\\button.lua", "C:\\proj", "src"),
        Some(String::from("ui/button"))
    );
    assert_eq!(slashed("a\\b/c\\"), "a/b/c/");
}

#[test]
fn changed_file_elsewhere_is_ignored() {
    assert_eq!(changed_module("/home/me/proj/out/bundle.dev.lua", "/home/me/proj", "src"), None);
    assert_eq!(changed_module("/home/me/proj/src", "/home/me/proj", "src"), None);
    assert_eq!(changed_module("/home/me/proj/src/readme.md", "/home/me/proj", "src"), None);
    assert_eq!(changed_module("src/main.lua", "/home/me/proj", "src"), None);
}

#[test]
fn prefix_and_suffix() {
    assert!(starts_with("abc", ""));
    assert!(starts_with("abc", "ab"));
    assert!(starts_with("abc", "abc"));
    assert!(!starts_with("abc", "abcd"));
    assert!(!starts_with("abc", "b"));
    assert_eq!(strip_suffix("abc", "bc"), Some(String::from("a")));
    assert_eq!(strip_suffix("abc", ""), Some(String::from("abc")));
    assert_eq!(strip_suffix("abc", "abc"), Some(String::new()));
    assert_eq!(strip_suffix("abc", "ab"), None);
    assert_eq!(strip_suffix("bc", "abc"), None);
}

#[test]
fn batch_names_only_the_modules() {
    let names = vec![
        String::from("/p/src/a.lua"),
        String::from("/p/src/notes.txt"),
        String::from("/p/out/bundle.dev.lua"),
        String::from("/p/src/ui/init.lua"),
        String::from("/p/src/a.lua"),
        String::from("/p/src/d.json"),
    ];
    assert_eq!(
        luajoin::intake::changed_modules(&names, "/p", "src"),
        vec!["a", "ui", "a", "d"]
    );
}

#[test]
fn batch_without_a_module_is_empty() {
    let names = vec![String::from("/p/src/notes.txt"), String::from("/p/readme.md")];
    assert!(luajoin::intake::changed_modules(&names, "/p", "src").is_empty());
    assert!(luajoin::intake::changed_modules(&Vec::new(), "/p", "src").is_empty());
}
