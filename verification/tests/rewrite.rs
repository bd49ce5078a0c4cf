use luajoin::rewrite::{
    blank_lines, has_newline, is_require, reference_of, require_action, rewrite_source,
    segment_of, RequireAction, RequireArgument,
};

fn breaks(text: &str) -> usize {
    text.matches('\n').count()
}

fn name(text: &str) -> Option<String> {
    Some(String::from(text))
}

fn chain(parts: &[&str]) -> Vec<Option<String>> {
    let mut tokens = Vec::new();
    for (i, part) in parts.iter().enumerate() {
        if i > 0 {
            tokens.push(None);
        }
        tokens.push(Some(part.to_string()));
    }
    tokens
}

#[test]
fn blank_space_keeps_the_line_breaks() {
    assert_eq!(blank_lines(""), "");
    assert_eq!(blank_lines("--[[ one line ]]"), "");
    assert_eq!(blank_lines("--[[\n two\n lines ]]"), "\n\n");
    assert_eq!(blank_lines("\n"), "\n");
    assert_eq!(breaks(&blank_lines("type T = {\n  a: number,\n}\n")), 3);
    assert!(has_newline("  \n"));
    assert!(!has_newline("   "));
}

#[test]
fn only_require_and_its_twin_matter() {
    assert!(is_require("require"));
    assert!(is_require("_require"));
    assert!(!is_require("Require"));
    assert!(!is_require("require_"));
    assert!(!is_require(""));
    let literal = RequireArgument::Literal(String::from("x"));
    assert!(matches!(require_action(&name("print"), &literal), RequireAction::Keep));
    assert!(matches!(require_action(&None, &literal), RequireAction::Keep));
    assert!(matches!(require_action(&None, &RequireArgument::Missing), RequireAction::Keep));
}

#[test]
fn string_literal_is_recorded() {
    let literal = RequireArgument::Literal(String::from("lib/helper"));
    assert!(matches!(
        require_action(&name("require"), &literal),
        RequireAction::Record(reference) if reference == "lib/helper"
    ));
    assert!(matches!(
        require_action(&name("_require"), &literal),
        RequireAction::Record(reference) if reference == "lib/helper"
    ));
}

#[test]
fn chain_from_script_is_rewritten() {
    let argument = RequireArgument::Chain(chain(&["script", "Parent", "lib", "helper"]));
    assert!(matches!(
        require_action(&name("require"), &argument),
        RequireAction::Rewrite(reference) if reference == "./../lib/helper"
    ));
    assert_eq!(reference_of(&chain(&["script"])), Some(String::from(".")));
    assert_eq!(
        reference_of(&chain(&["script", "Parent", "Parent", "x"])),
        Some(String::from("./../../x"))
    );
    assert_eq!(segment_of(&String::from("script")), ".");
    assert_eq!(segment_of(&String::from("Parent")), "..");
    assert_eq!(segment_of(&String::from("parent")), "parent");
}

#[test]
fn chain_from_elsewhere_is_left_alone() {
    let argument = RequireArgument::Chain(chain(&["game", "ReplicatedStorage", "x"]));
    assert!(matches!(require_action(&name("require"), &argument), RequireAction::Keep));
    assert_eq!(reference_of(&chain(&["Parent", "script"])), None);
    assert_eq!(reference_of(&Vec::new()), None);
    assert_eq!(reference_of(&vec![None, None]), None);
}

#[test]
fn missing_argument_is_reported() {
    assert!(matches!(
        require_action(&name("require"), &RequireArgument::Missing),
        RequireAction::Reject(message) if message == "An argument is required for '_require'"
    ));
}

#[test]
fn other_shapes_are_left_alone() {
    assert!(matches!(
        require_action(&name("require"), &RequireArgument::Other),
        RequireAction::Keep
    ));
    assert!(matches!(
        require_action(&name("require"), &RequireArgument::NoCall),
        RequireAction::Keep
    ));
}

#[test]
fn requires_are_gathered_in_order() {
    let source = "local a = require(\"a\")\nlocal b = require(script.Parent.b)\nlocal c = _require(\"./c\")\nprint(a, b, c)\n";
    let rewritten = rewrite_source(source).unwrap();
    assert_eq!(rewritten.imports, vec!["a", "./../b", "./c"]);
    assert!(rewritten.errors.is_empty());
    assert_eq!(
        rewritten.source,
        "local a = require(\"a\")\nlocal b = _require(\"./../b\")\nlocal c = _require(\"./c\")\nprint(a, b, c)\n"
    );
}

#[test]
fn other_calls_and_arguments_are_kept() {
    let source = "print(\"x\")\nlocal m = require(name)\nlocal n = require(game.Workspace.x)\nlocal o = require(\"a\" .. \"b\")\n";
    let rewritten = rewrite_source(source).unwrap();
    assert!(rewritten.imports.is_empty());
    assert!(rewritten.errors.is_empty());
    assert_eq!(rewritten.source, source);
}

#[test]
fn call_without_parentheses_is_kept() {
    let source = "local m = require \"a\"\nlocal t = require { 1 }\n";
    let rewritten = rewrite_source(source).unwrap();
    assert!(rewritten.imports.is_empty());
    assert_eq!(rewritten.source, source);
}

#[test]
fn nested_requires_are_each_noted() {
    let source = "local m = wrap(require(\"inner\"))\nlocal f = function() return require(script.late) end\n";
    let rewritten = rewrite_source(source).unwrap();
    assert_eq!(rewritten.imports, vec!["inner", "./late"]);
    assert_eq!(
        rewritten.source,
        "local m = wrap(require(\"inner\"))\nlocal f = function() return _require(\"./late\")end\n"
    );
}

#[test]
fn every_empty_require_is_reported() {
    let rewritten = rewrite_source("require()\nrequire(\"a\")\n_require()\n").unwrap();
    assert_eq!(
        rewritten.errors,
        vec!["An argument is required for '_require'", "An argument is required for '_require'"]
    );
    assert_eq!(rewritten.imports, vec!["a"]);
}

#[test]
fn comments_give_way_to_their_line_breaks() {
    let source = "-- first\nlocal x = 1 -- trailing\n--[[ block\n over\n lines ]]\nlocal y = 2\n";
    let rewritten = rewrite_source(source).unwrap();
    assert_eq!(rewritten.source, "\nlocal x = 1 \n\n\n\nlocal y = 2\n");
    assert_eq!(breaks(&rewritten.source), breaks(source));
}

#[test]
fn type_annotations_give_way_to_their_line_breaks() {
    let source = "type Point = {\n  x: number,\n  y: number,\n}\nlocal function f(p: Point): number\n  return (p.x :: number)\nend\n";
    let rewritten = rewrite_source(source).unwrap();
    assert!(!rewritten.source.contains("number"));
    assert!(!rewritten.source.contains("Point"));
    assert!(!rewritten.source.contains("::"));
    assert!(rewritten.source.contains("local function f(p)"));
    assert_eq!(breaks(&rewritten.source), breaks(source));
}

#[test]
fn rewritten_call_at_the_end_of_a_line_keeps_the_line() {
    let with = rewrite_source("local a = require(script.a)\nlocal b = 1\n").unwrap();
    assert_eq!(with.source, "local a = _require(\"./a\")\nlocal b = 1\n");
    let without = rewrite_source("local a = require(script.a) local b = 1\n").unwrap();
    assert_eq!(without.source, "local a = _require(\"./a\")local b = 1\n");
    let last = rewrite_source("return require(script.a)").unwrap();
    assert_eq!(last.source, "return _require(\"./a\")");
}

#[test]
fn source_that_is_no_lua_is_an_error() {
    assert!(rewrite_source("local = 1").is_err());
    assert!(rewrite_source("x = = 2").is_err());
    assert!(!rewrite_source("if then").unwrap_err().is_empty());
}

#[test]
fn backquoted_string_around_braces_is_refused() {
    let error = rewrite_source("local s = `hello {name}`\n").unwrap_err();
    assert_eq!(error, "a backquoted string that is written around braces is not supported");
    assert!(rewrite_source("local s = `a{}`").is_err());
    assert!(rewrite_source("local s = `a {1 + } b`").is_err());
    assert!(!luajoin::lua::can_parse("return `x {y} z`"));
    assert!(luajoin::minify::minify("return `x {y} z`").is_err());
}

#[test]
fn backquotes_elsewhere_are_taken() {
    assert!(luajoin::lua::can_parse("-- see `name` below\nlocal t = {}\n"));
    assert!(luajoin::lua::can_parse("local s = \"`{}`\"\nlocal t = { a = {} }"));
    assert!(luajoin::lua::can_parse("local s = `plain`"));
    assert!(luajoin::lua::can_parse("local = = ="));
    assert!(luajoin::lua::can_parse("--[[ never closed"));
    let kept = rewrite_source("-- see `name` below\nlocal t = {}\n").unwrap();
    assert_eq!(kept.source, "\nlocal t = {}\n");
    assert_eq!(rewrite_source("local s = `plain`").unwrap().source, "local s = `plain`");
}

#[test]
fn rewritten_call_prints_as_stated() {
    let with = rewrite_source("return require(script.Parent.a.b)   \n").unwrap();
    assert_eq!(with.source, "return _require(\"./../a/b\")\n");
    let without = rewrite_source("return require(script.Parent.a.b)   ").unwrap();
    assert_eq!(without.source, "return _require(\"./../a/b\")");
}
