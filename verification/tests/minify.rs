use luajoin::error::{BundleError, RequireError};
use luajoin::minify::{minify, squeeze};

#[test]
fn blank_space_before_a_token() {
    assert_eq!(squeeze("", true), "");
    assert_eq!(squeeze("   ", true), "");
    assert_eq!(squeeze("\t", true), "");
    assert_eq!(squeeze("\n", true), " ");
    assert_eq!(squeeze("  \r\n  ", true), " ");
    assert_eq!(squeeze("\r", true), " ");
}

#[test]
fn blank_space_after_a_token() {
    assert_eq!(squeeze("", false), "");
    assert_eq!(squeeze("   ", false), " ");
    assert_eq!(squeeze("\t", false), " ");
    assert_eq!(squeeze("\n\n\n", false), " ");
    assert_eq!(squeeze(" \r", false), " ");
}

#[test]
fn source_without_blank_runs_is_kept() {
    assert_eq!(minify("return 1").unwrap(), "return 1");
    assert_eq!(minify("local x = f(1, 2)").unwrap(), "local x = f(1, 2)");
}

#[test]
fn lines_and_comments_are_dropped() {
    let squeezed = minify("local x = 1 -- one\n--[[ two\nlines ]]\n\n    local y = x\nreturn y\n")
        .unwrap();
    assert!(!squeezed.contains('\n'));
    assert!(!squeezed.contains("one"));
    assert!(!squeezed.contains("two"));
    assert!(squeezed.starts_with("local x = 1 "));
    let words: Vec<&str> = squeezed.split(' ').filter(|word| !word.is_empty()).collect();
    assert_eq!(words, vec!["local", "x", "=", "1", "local", "y", "=", "x", "return", "y"]);
}

#[test]
fn strings_are_not_touched() {
    let squeezed = minify("local s = \"a   b\"\nlocal t = [[x\ny]]\n").unwrap();
    assert!(squeezed.contains("\"a   b\""));
    assert!(squeezed.contains("[[x\ny]]"));
}

#[test]
fn source_that_is_no_lua_is_refused() {
    assert!(minify("local = ").is_err());
}

#[test]
fn failure_is_one_line_for_the_user() {
    let missing = BundleError::ModuleNotFound { key: String::from("ui/button") };
    assert_eq!(missing.report(), "Problem generating bundle: Module 'ui/button' not found");
    let parse = BundleError::ParseFailure {
        key: String::from("main"),
        message: String::from("unexpected token"),
    };
    assert_eq!(parse.report(), "Problem generating bundle: 'main': unexpected token");
    let json = BundleError::JsonFailure { key: String::from("d"), message: String::from("EOF") };
    assert_eq!(json.message(), "'d': EOF");
    let rewrite = BundleError::RewriteFailure(RequireError::new(String::from("'m': bad")));
    assert_eq!(rewrite.report(), "Problem generating bundle: RequireError: 'm': bad");
    let io = BundleError::IoFailure {
        path: String::from("src/main.lua"),
        message: String::from("denied"),
    };
    assert_eq!(io.report(), "Problem generating bundle: src/main.lua: denied");
}
