use luajoin::emit::{block_string, emit, header, Block};
use luajoin::engine::RequireVisitor;
use luajoin::error::RequireError;
use luajoin::memo::Memo;
use luajoin::module::{candidate_path, get_module_path, ModuleType};
use luajoin::queue::{enqueue_all, has_key};
use luajoin::text::{count_newlines, join_strings, same_text, split_str, to_chars};

fn strings(items: &[&str]) -> Vec<String> {
    items.iter().map(|item| item.to_string()).collect()
}

#[test]
fn characters_of_a_text() {
    assert_eq!(to_chars("a/b"), vec!['a', '/', 'b']);
    assert_eq!(to_chars("é→"), vec!['é', '→']);
    assert!(to_chars("").is_empty());
    assert!(same_text("abc", "abc"));
    assert!(!same_text("abc", "abd"));
}

#[test]
fn split_and_join() {
    assert_eq!(split_str("a/b/c", '/'), vec!["a", "b", "c"]);
    assert_eq!(split_str("", '/'), vec![""]);
    assert_eq!(split_str("/", '/'), vec!["", ""]);
    assert_eq!(split_str("a//b/", '/'), vec!["a", "", "b", ""]);
    assert_eq!(split_str("héllo/wörld", '/'), vec!["héllo", "wörld"]);
    assert_eq!(join_strings(&strings(&["a", "b", "c"]), "/"), "a/b/c");
    assert_eq!(join_strings(&strings(&["a"]), "/"), "a");
    assert_eq!(join_strings(&Vec::new(), "/"), "");
    assert_eq!(join_strings(&strings(&["", ""]), ", "), ", ");
    for text in ["", "a", "/a/", "a//b", "x/y/z"] {
        assert_eq!(join_strings(&split_str(text, '/'), "/"), text);
    }
}

#[test]
fn line_breaks_are_counted() {
    assert_eq!(count_newlines(""), 0);
    assert_eq!(count_newlines("one line"), 0);
    assert_eq!(count_newlines("a\nb\r\nc\n"), 3);
    assert_eq!(count_newlines(&header()), header().split('\n').count() - 1);
}

#[test]
fn locator_takes_the_first_that_exists() {
    assert_eq!(
        get_module_path("src", "ui/button", true, true, true),
        Ok((String::from("src/ui/button.lua"), ModuleType::Lua))
    );
    assert_eq!(
        get_module_path("src", "ui", false, true, true),
        Ok((String::from("src/ui/init.lua"), ModuleType::Directory))
    );
    assert_eq!(
        get_module_path("src", "data/items", false, false, true),
        Ok((String::from("src/data/items.json"), ModuleType::Json))
    );
    assert_eq!(
        get_module_path("src", "gone", false, false, false),
        Err(String::from("Module 'gone' not found"))
    );
    assert_eq!(candidate_path("a/b", "c", ModuleType::Directory), "a/b/c/init.lua");
}

#[test]
fn memo_keeps_the_last_value() {
    let mut memo: Memo<u32> = Memo::new();
    let a = String::from("a");
    let b = String::from("b");
    assert!(memo.get(&a).is_none());
    assert!(!memo.contains_key(&a));
    memo.insert(a.clone(), 1);
    memo.insert(b.clone(), 2);
    memo.insert(a.clone(), 3);
    assert_eq!(memo.get(&a), Some(&3));
    assert_eq!(memo.get(&b), Some(&2));
    assert_eq!(memo.entries.len(), 2);
    memo.remove(&a);
    assert!(memo.get(&a).is_none());
    assert_eq!(memo.get(&b), Some(&2));
    memo.remove(&a);
    assert_eq!(memo.entries.len(), 1);
    memo.entries.push((b.clone(), 5));
    memo.entries.push((b.clone(), 6));
    assert_eq!(memo.get(&b), Some(&6));
    memo.remove(&b);
    assert!(memo.entries.is_empty());
}

#[test]
fn queue_takes_each_key_once() {
    let mut order = strings(&["main"]);
    enqueue_all(&mut order, &strings(&["a", "main", "b", "a"]));
    assert_eq!(order, vec!["main", "a", "b"]);
    enqueue_all(&mut order, &Vec::new());
    assert_eq!(order, vec!["main", "a", "b"]);
    assert!(has_key(&order, &String::from("b")));
    assert!(!has_key(&order, &String::from("c")));
}

#[test]
fn fresh_engine_remembers_nothing() {
    let engine = RequireVisitor::new("src", "main");
    assert_eq!(engine.src_dir, "src");
    assert_eq!(engine.entry_file, "main");
    assert_eq!(engine.cur_file, "src");
    assert!(engine.cur_imports.is_empty());
    assert!(engine.cur_errors.is_empty());
    assert!(engine.imports_memo.entries.is_empty());
    assert!(engine.transformed_memo.entries.is_empty());
    assert!(engine.all_json.entries.is_empty());
}

#[test]
fn require_error_keeps_its_account() {
    let error = RequireError::new(String::from("'main': bad"));
    assert_eq!(error.value, "'main': bad");
    assert_eq!(error.description(), "'main': bad");
    assert_eq!(error.message(), "RequireError: 'main': bad");
}

#[test]
fn block_of_each_kind() {
    let script = Block {
        key: String::from("a/b"),
        kind: ModuleType::Lua,
        body: String::from("return 1"),
    };
    assert_eq!(block_string(&script), "\n__LUAJOIN_FILES[\"a/b\"]=function(_require)\nreturn 1\nend");
    let directory = Block {
        key: String::from("ui"),
        kind: ModuleType::Directory,
        body: String::from("return 2"),
    };
    assert_eq!(
        block_string(&directory),
        "\n__LUAJOIN_DIRECTORIES[\"ui\"]=true\n__LUAJOIN_FILES[\"ui\"]=function(_require)\nreturn 2\nend"
    );
    let data = Block {
        key: String::from("d"),
        kind: ModuleType::Json,
        body: String::from("return {}"),
    };
    assert_eq!(block_string(&data), "\n__LUAJOIN_FILES[\"d\"]=function(_require)\nreturn {}\nend");
}

#[test]
fn line_map_counts_the_lines_of_the_bundle_so_far() {
    let blocks = vec![
        Block { key: String::from("main"), kind: ModuleType::Lua, body: String::from("a\nb\nc") },
        Block { key: String::from("ui"), kind: ModuleType::Directory, body: String::new() },
        Block { key: String::from("d"), kind: ModuleType::Json, body: String::from("return 1") },
    ];
    let (text, source_map, names) = emit(&blocks, false, "main");
    let header = header().split('\n').count();
    assert_eq!(source_map, vec![header, header + 5, header + 9, header + 12]);
    assert_eq!(names, vec!["[BUNDLER]", "main", "ui", "d"]);
    assert_eq!(text.split('\n').count(), header + 12 + 2);
    for (i, block) in blocks.iter().enumerate() {
        let upto = text.find(&block_string(block)).unwrap() + block_string(block).len();
        assert_eq!(text[..upto].split('\n').count(), source_map[i + 1]);
    }
    assert!(source_map.windows(2).all(|pair| pair[0] <= pair[1]));
}

#[test]
fn empty_bundle_is_header_and_entry_call() {
    let (text, source_map, names) = emit(&Vec::new(), false, "main");
    assert_eq!(text, format!("{}\n__LUAJOIN_FILES[\"main\"](__LUAJOIN_require)\n", header()));
    assert_eq!(source_map, vec![header().split('\n').count()]);
    assert_eq!(names, vec!["[BUNDLER]"]);
    let (dev, _, _) = emit(&Vec::new(), true, "app/start");
    assert_eq!(
        dev,
        format!(
            "{}\n__LUAJOIN_FILES[\".dev\"](__LUAJOIN_require)\n__LUAJOIN_FILES[\"app/start\"](__LUAJOIN_require)\n",
            header()
        )
    );
}
