use luajoin::emit::header;
use luajoin::engine::{Action, Event, RequireVisitor};
use luajoin::error::BundleError;
use luajoin::module::{candidate_path, get_module_path, ModuleType};

fn is_there(files: &[(&str, &str)], path: &str) -> bool {
    files.iter().any(|(name, _)| *name == path)
}

fn read(files: &[(&str, &str)], path: &str) -> Option<String> {
    files.iter().find(|(name, _)| *name == path).map(|(_, text)| text.to_string())
}

fn locate(files: &[(&str, &str)], key: &str) -> Event {
    let found = get_module_path(
        "src",
        key,
        is_there(files, &candidate_path("src", key, ModuleType::Lua)),
        is_there(files, &candidate_path("src", key, ModuleType::Directory)),
        is_there(files, &candidate_path("src", key, ModuleType::Json)),
    );
    match found {
        Ok((_, kind)) => Event::Located(kind),
        Err(_) => Event::Missing,
    }
}

/// Runs a build against files held in memory, and counts the files read.
fn build(
    engine: &mut RequireVisitor,
    files: &[(&str, &str)],
    development: bool,
    reads: &mut Vec<String>,
) -> Result<(String, Vec<usize>, Vec<String>), BundleError> {
    let mut walk = engine.begin();
    let mut action = engine.request(&walk);
    loop {
        let event = match action {
            Action::Done => break,
            Action::Failed(error) => return Err(error),
            Action::Locate(key) => locate(files, &key),
            Action::Read(path) => {
                reads.push(path.clone());
                match read(files, &path) {
                    Some(text) => Event::Source(text),
                    None => Event::Unreadable(String::from("no such file")),
                }
            }
        };
        action = engine.traverse(&mut walk, event);
    }
    let dev = if development { read(files, "src/.dev.lua") } else { None };
    engine.generate_bundle(&walk, dev.as_deref())
}

fn lines(text: &str) -> usize {
    text.split('\n').count()
}

#[test]
fn string_require_bundles_both_modules() {
    let files = [
        ("src/main.lua", "local util = require(\"util\")\nprint(util)\n"),
        ("src/util.lua", "return 1\n"),
    ];
    let mut engine = RequireVisitor::new("src", "main");
    let mut reads = Vec::new();
    let (text, source_map, names) = build(&mut engine, &files, false, &mut reads).unwrap();
    assert!(text.starts_with(&header()));
    assert!(text.contains("\n__LUAJOIN_FILES[\"util\"]=function(_require)\nreturn 1\n\nend"));
    assert!(text.contains(
        "\n__LUAJOIN_FILES[\"main\"]=function(_require)\nlocal util = require(\"util\")\nprint(util)\n\nend"
    ));
    assert!(text.ends_with("\n__LUAJOIN_FILES[\"main\"](__LUAJOIN_require)\n"));
    assert_eq!(source_map.len(), 3);
    assert_eq!(names, vec!["[BUNDLER]", "main", "util"]);
    assert_eq!(reads, vec!["src/main.lua", "src/util.lua"]);
}

#[test]
fn whole_bundle_text() {
    let files = [("src/main.lua", "return 1")];
    let mut engine = RequireVisitor::new("src", "main");
    let mut reads = Vec::new();
    let (text, source_map, names) = build(&mut engine, &files, false, &mut reads).unwrap();
    let expected = format!(
        "{}\n__LUAJOIN_FILES[\"main\"]=function(_require)\nreturn 1\nend\n__LUAJOIN_FILES[\"main\"](__LUAJOIN_require)\n",
        header()
    );
    assert_eq!(text, expected);
    assert_eq!(source_map, vec![lines(&header()), lines(&header()) + 3]);
    assert_eq!(names, vec!["[BUNDLER]", "main"]);
}

#[test]
fn script_chain_is_rewritten() {
    let files = [
        ("src/main.lua", "local helper = require(script.Parent.lib.helper)\nreturn helper\n"),
        ("src/lib/helper.lua", "return {}\n"),
    ];
    let mut engine = RequireVisitor::new("src", "main");
    let mut reads = Vec::new();
    let (text, _, names) = build(&mut engine, &files, false, &mut reads).unwrap();
    assert_eq!(names, vec!["[BUNDLER]", "main", "lib/helper"]);
    assert!(text.contains("local helper = _require(\"./../lib/helper\")\nreturn helper\n"));
    assert!(!text.contains("script.Parent"));
    assert_eq!(engine.cur_file, "lib/helper");
    let main_imports = engine.imports_memo.get(&String::from("main")).unwrap();
    assert_eq!(main_imports, &vec![String::from("lib/helper")]);
}

#[test]
fn rewritten_call_keeps_no_newline_it_did_not_have() {
    let files = [
        ("src/main.lua", "local a = require(script.a) local b = require(script.b)\nreturn a, b"),
        ("src/a.lua", "return 1"),
        ("src/b.lua", "return 2"),
    ];
    let mut engine = RequireVisitor::new("src", "main");
    let mut reads = Vec::new();
    let (_, _, names) = build(&mut engine, &files, false, &mut reads).unwrap();
    assert_eq!(names, vec!["[BUNDLER]", "main", "a", "b"]);
    let main = engine.transformed_memo.get(&String::from("main")).unwrap();
    assert_eq!(main, "local a = _require(\"./a\")local b = _require(\"./b\")\nreturn a, b");
}

#[test]
fn json_module_is_embedded() {
    let files = [
        ("src/main.lua", "return require(\"data/items\")"),
        ("src/data/items.json", "{\"a\":1,\"b\":[true,null]}"),
    ];
    let mut engine = RequireVisitor::new("src", "main");
    let mut reads = Vec::new();
    let (text, _, names) = build(&mut engine, &files, false, &mut reads).unwrap();
    assert_eq!(names, vec!["[BUNDLER]", "main", "data/items"]);
    assert!(text.contains(
        "\n__LUAJOIN_FILES[\"data/items\"]=function(_require)\nreturn {[\"a\"]=1,[\"b\"]={true,nil,},}\nend"
    ));
    assert_eq!(
        engine.all_json.get(&String::from("data/items")).unwrap(),
        "return {[\"a\"]=1,[\"b\"]={true,nil,},}"
    );
}

#[test]
fn directory_module_resolves_from_its_init() {
    let files = [
        ("src/main.lua", "return require(\"ui\")"),
        ("src/ui/init.lua", "return require(\"./button\")"),
        ("src/ui/button.lua", "return 3"),
    ];
    let mut engine = RequireVisitor::new("src", "main");
    let mut reads = Vec::new();
    let (text, _, names) = build(&mut engine, &files, false, &mut reads).unwrap();
    assert_eq!(names, vec!["[BUNDLER]", "main", "ui", "ui/button"]);
    assert!(text.contains(
        "\n__LUAJOIN_DIRECTORIES[\"ui\"]=true\n__LUAJOIN_FILES[\"ui\"]=function(_require)\n"
    ));
    assert!(!text.contains("__LUAJOIN_DIRECTORIES[\"main\"]"));
    assert_eq!(reads, vec!["src/main.lua", "src/ui/init.lua", "src/ui/button.lua"]);
}

#[test]
fn script_shadows_directory_and_data() {
    let files = [
        ("src/main.lua", "return require(\"ui\")"),
        ("src/ui.lua", "return 1"),
        ("src/ui/init.lua", "return 2"),
        ("src/ui.json", "3"),
    ];
    let mut engine = RequireVisitor::new("src", "main");
    let mut reads = Vec::new();
    let (text, _, _) = build(&mut engine, &files, false, &mut reads).unwrap();
    assert!(text.contains("\n__LUAJOIN_FILES[\"ui\"]=function(_require)\nreturn 1\nend"));
    assert!(!text.contains("__LUAJOIN_DIRECTORIES[\"ui\"]"));
}

#[test]
fn cycle_visits_each_module_once() {
    let files = [
        ("src/a.lua", "local b = require(\"b\")\nreturn 1"),
        ("src/b.lua", "local a = require(\"a\")\nreturn 2"),
    ];
    let mut engine = RequireVisitor::new("src", "a");
    let mut reads = Vec::new();
    let (text, source_map, names) = build(&mut engine, &files, false, &mut reads).unwrap();
    assert_eq!(names, vec!["[BUNDLER]", "a", "b"]);
    assert_eq!(source_map.len(), 3);
    assert_eq!(text.matches("__LUAJOIN_FILES[\"a\"]=function").count(), 1);
    assert_eq!(text.matches("__LUAJOIN_FILES[\"b\"]=function").count(), 1);
}

#[test]
fn repeated_require_is_remembered_once() {
    let files = [
        ("src/main.lua", "require(\"x\")\nrequire(\"y\")\nrequire(\"x\")\n_require(\"./y\")"),
        ("src/x.lua", ""),
        ("src/y.lua", ""),
    ];
    let mut engine = RequireVisitor::new("src", "main");
    let mut reads = Vec::new();
    let (_, _, names) = build(&mut engine, &files, false, &mut reads).unwrap();
    assert_eq!(names, vec!["[BUNDLER]", "main", "x", "y"]);
    assert_eq!(engine.cur_file, "y");
    assert_eq!(
        engine.imports_memo.get(&String::from("main")).unwrap(),
        &vec![String::from("x"), String::from("y")]
    );
}

#[test]
fn second_build_reads_nothing_and_writes_the_same() {
    let files = [
        ("src/main.lua", "local u = require(script.Parent.util)\nlocal d = require(\"data\")"),
        ("src/util.lua", "-- helper\nreturn 1"),
        ("src/data.json", "[1, \"two\", {\"k\": false}]"),
    ];
    let mut engine = RequireVisitor::new("src", "main");
    let mut reads = Vec::new();
    let first = build(&mut engine, &files, false, &mut reads).unwrap();
    assert_eq!(reads.len(), 3);
    let mut again = Vec::new();
    let second = build(&mut engine, &files, false, &mut again).unwrap();
    assert!(again.is_empty());
    assert_eq!(first, second);
    let mut fresh = RequireVisitor::new("src", "main");
    let mut fresh_reads = Vec::new();
    let third = build(&mut fresh, &files, false, &mut fresh_reads).unwrap();
    assert_eq!(first, third);
}

#[test]
fn invalidation_reads_only_the_changed_module() {
    let files = [
        ("src/main.lua", "return require(\"util\")"),
        ("src/util.lua", "return 1"),
    ];
    let mut engine = RequireVisitor::new("src", "main");
    let mut reads = Vec::new();
    build(&mut engine, &files, false, &mut reads).unwrap();
    engine.mark_file_change("util");
    assert!(engine.imports_memo.get(&String::from("util")).is_none());
    assert!(engine.transformed_memo.get(&String::from("util")).is_none());
    assert!(engine.imports_memo.get(&String::from("main")).is_some());
    let changed = [
        ("src/main.lua", "return require(\"util\")"),
        ("src/util.lua", "return 2"),
    ];
    let mut again = Vec::new();
    let (text, _, _) = build(&mut engine, &changed, false, &mut again).unwrap();
    assert_eq!(again, vec!["src/util.lua"]);
    assert!(text.contains("return 2"));
    assert!(!text.contains("return 1"));
}

#[test]
fn invalidating_twice_is_invalidating_once() {
    let files = [
        ("src/main.lua", "return require(\"util\"), require(\"data\")"),
        ("src/util.lua", "return 1"),
        ("src/data.json", "null"),
    ];
    let mut engine = RequireVisitor::new("src", "main");
    let mut reads = Vec::new();
    build(&mut engine, &files, false, &mut reads).unwrap();
    engine.mark_file_change("data");
    let keys_once: Vec<String> = engine.all_json.entries.iter().map(|e| e.0.clone()).collect();
    let scripts_once: Vec<String> =
        engine.imports_memo.entries.iter().map(|e| e.0.clone()).collect();
    engine.mark_file_change("data");
    let keys_twice: Vec<String> = engine.all_json.entries.iter().map(|e| e.0.clone()).collect();
    let scripts_twice: Vec<String> =
        engine.imports_memo.entries.iter().map(|e| e.0.clone()).collect();
    assert!(keys_once.is_empty());
    assert_eq!(keys_once, keys_twice);
    assert_eq!(scripts_once, vec!["main", "util"]);
    assert_eq!(scripts_once, scripts_twice);
}

#[test]
fn development_bundle_runs_the_helper_first() {
    let files = [
        ("src/main.lua", "return 1"),
        ("src/.dev.lua", "print(\"dev\") -- kept as read"),
    ];
    let mut engine = RequireVisitor::new("src", "main");
    let mut reads = Vec::new();
    let (text, source_map, names) = build(&mut engine, &files, true, &mut reads).unwrap();
    assert_eq!(names, vec!["[BUNDLER]", "main", ".dev"]);
    assert_eq!(source_map.len(), 3);
    assert!(text.contains(
        "\n__LUAJOIN_FILES[\".dev\"]=function(_require)\nprint(\"dev\") -- kept as read\nend"
    ));
    assert!(text.ends_with(
        "\n__LUAJOIN_FILES[\".dev\"](__LUAJOIN_require)\n__LUAJOIN_FILES[\"main\"](__LUAJOIN_require)\n"
    ));
    let mut plain = Vec::new();
    let (release, _, release_names) = build(&mut engine, &files, false, &mut plain).unwrap();
    assert_eq!(release_names, vec!["[BUNDLER]", "main"]);
    assert!(!release.contains(".dev"));
}

#[test]
fn missing_module_fails_the_build() {
    let files = [("src/main.lua", "return require(\"nowhere\")")];
    let mut engine = RequireVisitor::new("src", "main");
    let mut reads = Vec::new();
    let error = build(&mut engine, &files, false, &mut reads).unwrap_err();
    assert!(matches!(&error, BundleError::ModuleNotFound { key } if key == "nowhere"));
    assert_eq!(error.message(), "Module 'nowhere' not found");
    assert!(engine.imports_memo.get(&String::from("main")).is_some());
}

#[test]
fn require_without_argument_fails_the_build() {
    let files = [("src/main.lua", "local x = require()\n")];
    let mut engine = RequireVisitor::new("src", "main");
    let mut reads = Vec::new();
    let error = build(&mut engine, &files, false, &mut reads).unwrap_err();
    match &error {
        BundleError::RewriteFailure(inner) => {
            assert_eq!(inner.value, "'main': An argument is required for '_require'");
            assert_eq!(inner.description(), "'main': An argument is required for '_require'");
        }
        other => panic!("unexpected error: {:?}", other),
    }
    assert_eq!(
        error.message(),
        "RequireError: 'main': An argument is required for '_require'"
    );
    assert_eq!(engine.cur_errors, vec!["An argument is required for '_require'"]);
    assert!(engine.imports_memo.get(&String::from("main")).is_none());
}

#[test]
fn source_that_does_not_parse_fails_the_build() {
    let files = [("src/main.lua", "local = = 3")];
    let mut engine = RequireVisitor::new("src", "main");
    let mut reads = Vec::new();
    let error = build(&mut engine, &files, false, &mut reads).unwrap_err();
    assert!(matches!(&error, BundleError::ParseFailure { key, .. } if key == "main"));
    assert!(error.message().starts_with("'main': "));
}

#[test]
fn text_that_is_no_json_fails_the_build() {
    let files = [
        ("src/main.lua", "return require(\"data\")"),
        ("src/data.json", "{\"a\": }"),
    ];
    let mut engine = RequireVisitor::new("src", "main");
    let mut reads = Vec::new();
    let error = build(&mut engine, &files, false, &mut reads).unwrap_err();
    assert!(matches!(&error, BundleError::JsonFailure { key, .. } if key == "data"));
    assert!(engine.all_json.get(&String::from("data")).is_none());
}

#[test]
fn unreadable_file_fails_the_build() {
    let mut engine = RequireVisitor::new("src", "main");
    let mut walk = engine.begin();
    let action = engine.traverse(&mut walk, Event::Located(ModuleType::Directory));
    assert!(matches!(&action, Action::Read(path) if path == "src/main/init.lua"));
    let action = engine.traverse(&mut walk, Event::Unreadable(String::from("denied")));
    match action {
        Action::Failed(error) => {
            assert!(matches!(
                &error,
                BundleError::IoFailure { path, message }
                    if path == "src/main/init.lua" && message == "denied"
            ));
            assert_eq!(error.message(), "src/main/init.lua: denied");
        }
        other => panic!("unexpected action: {:?}", other),
    }
}

#[test]
fn answer_out_of_turn_asks_again() {
    let mut engine = RequireVisitor::new("src", "main");
    let mut walk = engine.begin();
    let action = engine.traverse(&mut walk, Event::Source(String::from("return 1")));
    assert!(matches!(&action, Action::Locate(key) if key == "main"));
    let action = engine.traverse(&mut walk, Event::Located(ModuleType::Lua));
    assert!(matches!(&action, Action::Read(path) if path == "src/main.lua"));
    let action = engine.traverse(&mut walk, Event::Located(ModuleType::Json));
    assert!(matches!(&action, Action::Read(path) if path == "src/main.lua"));
    let action = engine.traverse(&mut walk, Event::Source(String::from("return 1")));
    assert!(matches!(action, Action::Done));
    let action = engine.traverse(&mut walk, Event::Missing);
    assert!(matches!(action, Action::Done));
    assert_eq!(walk.order, vec!["main"]);
    assert_eq!(walk.kinds, vec![ModuleType::Lua]);
}

#[test]
fn bundle_without_a_remembered_body_names_the_module() {
    let files = [
        ("src/main.lua", "return require(\"util\")"),
        ("src/util.lua", "return 1"),
    ];
    let mut engine = RequireVisitor::new("src", "main");
    let mut walk = engine.begin();
    let mut action = engine.request(&walk);
    loop {
        let event = match action {
            Action::Done => break,
            Action::Locate(key) => locate(&files, &key),
            Action::Read(path) => Event::Source(read(&files, &path).unwrap()),
            Action::Failed(error) => panic!("unexpected failure: {:?}", error),
        };
        action = engine.traverse(&mut walk, event);
    }
    engine.mark_file_change("util");
    let error = engine.generate_bundle(&walk, None).unwrap_err();
    assert!(matches!(&error, BundleError::ModuleNotFound { key } if key == "util"));
}

#[test]
fn header_declares_what_the_blocks_use() {
    let text = header();
    assert!(text.starts_with("-- LuaJoin runtime\n"));
    assert!(text.contains("\n__LUAJOIN_FILES = {}\n"));
    assert!(text.contains("\n__LUAJOIN_DIRECTORIES = {}\n"));
    assert!(text.contains("\n__LUAJOIN_require = "));
    assert!(!text.ends_with('\n'));
    assert!(luajoin::rewrite::rewrite_source(&text).is_ok());
}

#[test]
fn bundle_is_lua() {
    let files = [
        ("src/main.lua", "local ui = require(script.Parent.ui)\nreturn ui, require(\"data\")\n"),
        ("src/ui/init.lua", "-- the ui\nreturn { button = require(\"./button\") }\n"),
        ("src/ui/button.lua", "type Button = { label: string }\nreturn {}\n"),
        ("src/data.json", "{\"list\": [1, 2.5, \"three\", null, true]}"),
        ("src/.dev.lua", "print(\"dev\")\n"),
    ];
    let mut engine = RequireVisitor::new("src", "main");
    let mut reads = Vec::new();
    let (text, source_map, names) = build(&mut engine, &files, true, &mut reads).unwrap();
    assert_eq!(names, vec!["[BUNDLER]", "main", "ui", "data", "ui/button", ".dev"]);
    assert_eq!(source_map.len(), names.len());
    assert!(source_map.windows(2).all(|pair| pair[0] < pair[1]));
    assert_eq!(text.split('\n').count(), source_map[source_map.len() - 1] + 3);
    assert!(luajoin::rewrite::rewrite_source(&text).is_ok());
    assert!(luajoin::minify::minify(&text).is_ok());
}

#[test]
fn helper_that_the_walk_has_met_is_not_written_twice() {
    let files = [
        ("src/main.lua", "return require(\".dev\")"),
        ("src/.dev.lua", "print(\"dev\")"),
    ];
    let mut engine = RequireVisitor::new("src", "main");
    let mut reads = Vec::new();
    let (text, source_map, names) = build(&mut engine, &files, true, &mut reads).unwrap();
    assert_eq!(names, vec!["[BUNDLER]", "main", ".dev"]);
    assert_eq!(source_map.len(), 3);
    assert_eq!(text.matches("__LUAJOIN_FILES[\".dev\"]=function").count(), 1);
    assert!(text.ends_with(
        "\n__LUAJOIN_FILES[\".dev\"](__LUAJOIN_require)\n__LUAJOIN_FILES[\"main\"](__LUAJOIN_require)\n"
    ));
}

#[test]
fn cold_builds_of_one_tree_are_the_same() {
    let files = [
        ("src/main.lua", "-- entry\nlocal a = require(script.Parent.a)\nreturn a, require(\"d\")\n"),
        ("src/a.lua", "type T = number\nreturn 1 :: T\n"),
        ("src/d.json", "{\"k\": \"v\\n\"}"),
    ];
    let mut first = RequireVisitor::new("src", "main");
    let mut second = RequireVisitor::new("src", "main");
    let mut reads = Vec::new();
    let one = build(&mut first, &files, false, &mut reads).unwrap();
    let two = build(&mut second, &files, false, &mut reads).unwrap();
    assert_eq!(one, two);
}
