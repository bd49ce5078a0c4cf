//! The emitter: it writes the bundle. The runtime header comes first, then
//! one registration per module in the order given, then the call that loads
//! the entry module. Beside the text it keeps the line map: how many lines
//! the bundle has after the header and after each module.

use vstd::prelude::*;
use vstd::string::StrSliceExecFns;
use vstd::string::StringExecFns;
use crate::module::ModuleType;
use crate::source_map::non_decreasing;
use crate::text::{count_newlines, lemma_newlines_concat, newlines, views};

verus! {

/// The first line of every bundle.
pub const HEADER_TITLE: &'static str = "-- LuaJoin runtime";

/// The Lua that every bundle starts with, after its first line. It declares
/// the table of module loaders, the table that marks the modules that are
/// directories, and the function that loads a module by key, once, for the
/// module that asks.
pub const HEADER_BODY: &'static str =
    "\n__LUAJOIN_FILES = {}\n__LUAJOIN_DIRECTORIES = {}\nlocal __LUAJOIN_LOADED = {}\nlocal function __LUAJOIN_resolve(caller, reference)\n  local relative = false\n  local parts = {}\n  for part in string.gmatch(reference .. \"/\", \"([^/]*)/\") do\n    if part == \".\" or part == \"..\" then\n      relative = true\n    end\n    parts[#parts + 1] = part\n  end\n  if not relative then\n    return reference\n  end\n  local path = {}\n  if parts[1] == \".\" or parts[1] == \"..\" then\n    for part in string.gmatch(caller .. \"/\", \"([^/]*)/\") do\n      path[#path + 1] = part\n    end\n  end\n  for _, part in ipairs(parts) do\n    if part == \"..\" then\n      path[#path] = nil\n      path[#path] = nil\n    elseif part == \".\" then\n      path[#path] = nil\n    else\n      path[#path + 1] = part\n    end\n  end\n  return table.concat(path, \"/\")\nend\nlocal function __LUAJOIN_requirer(caller)\n  return function(reference)\n    local key = __LUAJOIN_resolve(caller, reference)\n    local loaded = __LUAJOIN_LOADED[key]\n    if loaded == nil then\n      local file = __LUAJOIN_FILES[key]\n      if file == nil then\n        error(\"module '\" .. key .. \"' not found\", 2)\n      end\n      local own = key\n      if __LUAJOIN_DIRECTORIES[key] then\n        own = key .. \"/init\"\n      end\n      loaded = { value = file(__LUAJOIN_requirer(own)) }\n      __LUAJOIN_LOADED[key] = loaded\n    end\n    return loaded.value\n  end\nend\n__LUAJOIN_require = __LUAJOIN_requirer(\"\")";

/// The runtime header: the first line and what follows it.
pub open spec fn header_text() -> Seq<char> {
    HEADER_TITLE@ + HEADER_BODY@
}

/// The name that the line map gives to the lines of the header.
pub const BUNDLER: &'static str = "[BUNDLER]";

/// The key of the helper module that a development bundle loads first.
pub const DEV_MODULE: &'static str = ".dev";

/// One module as the bundle holds it.
#[derive(Debug)]
pub struct Block {
    /// The module's key.
    pub key: String,
    /// What kind of file it came from.
    pub kind: ModuleType,
    /// The Lua between the registration line and its `end`.
    pub body: String,
}

/// A block with its texts as characters.
pub struct BlockView {
    pub key: Seq<char>,
    pub kind: ModuleType,
    pub body: Seq<char>,
}

impl View for Block {
    type V = BlockView;

    open spec fn view(&self) -> BlockView {
        BlockView { key: self.key@, kind: self.kind, body: self.body@ }
    }
}

/// The views of a sequence of blocks, one for one.
pub open spec fn block_views(blocks: Seq<Block>) -> Seq<BlockView> {
    blocks.map_values(|block: Block| block@)
}

/// The line that marks a module as a directory.
pub open spec fn directory_flag(key: Seq<char>) -> Seq<char> {
    "\n__LUAJOIN_DIRECTORIES[\""@ + key + "\"]=true"@
}

/// A module's registration: the opening line, the body, and `end`, each on
/// lines of their own; before them the directory flag, for a directory.
pub open spec fn block_text(key: Seq<char>, kind: ModuleType, body: Seq<char>) -> Seq<char> {
    (if kind == ModuleType::Directory {
        directory_flag(key)
    } else {
        Seq::<char>::empty()
    }) + "\n__LUAJOIN_FILES[\""@ + key + "\"]=function(_require)\n"@ + body + "\nend"@
}

/// The registrations of the modules, in order.
pub open spec fn blocks_text(blocks: Seq<BlockView>) -> Seq<char>
    decreases blocks.len(),
{
    if blocks.len() == 0 {
        Seq::<char>::empty()
    } else {
        blocks_text(blocks.drop_last()) + block_text(
            blocks.last().key,
            blocks.last().kind,
            blocks.last().body,
        )
    }
}

/// The call that runs the development helper.
pub open spec fn dev_call() -> Seq<char> {
    "\n__LUAJOIN_FILES[\".dev\"](__LUAJOIN_require)"@
}

/// The call that runs the entry module, and ends the bundle.
pub open spec fn entry_call(entry: Seq<char>) -> Seq<char> {
    "\n__LUAJOIN_FILES[\""@ + entry + "\"](__LUAJOIN_require)\n"@
}

/// The whole bundle.
pub open spec fn bundle_text(blocks: Seq<BlockView>, dev: bool, entry: Seq<char>) -> Seq<char> {
    header_text() + blocks_text(blocks) + (if dev {
        dev_call()
    } else {
        Seq::<char>::empty()
    }) + entry_call(entry)
}

/// How many lines a text has: one more than its line breaks.
pub open spec fn line_count(text: Seq<char>) -> nat {
    newlines(text) + 1
}

/// The lines of the bundle up to the end of the first `n` modules.
pub open spec fn lines_after(blocks: Seq<BlockView>, n: int) -> nat {
    line_count(header_text() + blocks_text(blocks.take(n)))
}

/// The names of the line map: the header's, then the modules' keys.
pub open spec fn map_names(blocks: Seq<BlockView>) -> Seq<Seq<char>> {
    seq![BUNDLER@] + blocks.map_values(|block: BlockView| block.key)
}

/// Adding a module to the bundle adds its registration to the text.
pub proof fn lemma_blocks_text_step(blocks: Seq<BlockView>, n: int)
    requires
        0 <= n < blocks.len(),
    ensures
        blocks_text(blocks.take(n + 1)) == blocks_text(blocks.take(n)) + block_text(
            blocks[n].key,
            blocks[n].kind,
            blocks[n].body,
        ),
{
    assert(blocks.take(n + 1).drop_last() == blocks.take(n));
}

/// The line map never decreases: a module can only add lines.
pub proof fn lemma_lines_grow(blocks: Seq<BlockView>, m: int, n: int)
    requires
        0 <= m <= n <= blocks.len(),
    ensures
        lines_after(blocks, m) <= lines_after(blocks, n),
    decreases n - m,
{
    if m < n {
        lemma_lines_grow(blocks, m, n - 1);
        lemma_blocks_text_step(blocks, n - 1);
        let before = header_text() + blocks_text(blocks.take(n - 1));
        let added = block_text(blocks[n - 1].key, blocks[n - 1].kind, blocks[n - 1].body);
        assert(header_text() + blocks_text(blocks.take(n)) =~= before + added);
        lemma_newlines_concat(before, added);
    }
}

/// The call of the entry module is the end of every bundle, and in a
/// development bundle the call of the helper stands right before it.
pub proof fn lemma_entry_runs_last(blocks: Seq<BlockView>, dev: bool, entry: Seq<char>)
    ensures
        bundle_text(blocks, dev, entry) == bundle_text(blocks, dev, entry).take(
            bundle_text(blocks, dev, entry).len() - entry_call(entry).len(),
        ) + entry_call(entry),
        dev ==> bundle_text(blocks, dev, entry) == header_text() + blocks_text(blocks) + dev_call()
            + entry_call(entry),
        bundle_text(blocks, dev, entry).take(header_text().len() as int) == header_text(),
{
    let text = bundle_text(blocks, dev, entry);
    let tail = entry_call(entry);
    assert(text.take(text.len() - tail.len()) + tail =~= text);
    assert(text.take(header_text().len() as int) =~= header_text());
}

/// A text that begins with a character other than a line break has fewer
/// line breaks than characters.
pub proof fn lemma_newlines_strict(s: Seq<char>)
    requires
        s.len() > 0,
        s[0] != '\n',
    ensures
        newlines(s) < s.len(),
    decreases s.len(),
{
    if s.len() > 1 {
        assert(s.drop_last()[0] == s[0]);
        lemma_newlines_strict(s.drop_last());
    } else {
        assert(s.drop_last().len() == 0);
        assert(newlines(s.drop_last()) == 0);
        assert(s.last() == s[0]);
    }
}

/// A text that begins with the header has fewer line breaks than characters.
proof fn lemma_header_room(rest: Seq<char>)
    ensures
        newlines(header_text() + rest) < (header_text() + rest).len(),
{
    reveal_strlit("-- LuaJoin runtime");
    assert(HEADER_TITLE@.len() > 0);
    assert(HEADER_TITLE@[0] == '-');
    assert((header_text() + rest)[0] == '-');
    lemma_newlines_strict(header_text() + rest);
}

/// The runtime header.
pub fn header() -> (text: String)
    ensures
        text@ == header_text(),
{
    let mut text = String::from_str(HEADER_TITLE);
    text.append(HEADER_BODY);
    text
}

/// The registration of one module.
pub fn block_string(block: &Block) -> (text: String)
    ensures
        text@ == block_text(block.key@, block.kind, block.body@),
{
    let mut text = String::new();
    if block.kind == ModuleType::Directory {
        text.append("\n__LUAJOIN_DIRECTORIES[\"");
        text.append(block.key.as_str());
        text.append("\"]=true");
    }
    text.append("\n__LUAJOIN_FILES[\"");
    text.append(block.key.as_str());
    text.append("\"]=function(_require)\n");
    text.append(block.body.as_str());
    text.append("\nend");
    proof {
        assert(text@ =~= block_text(block.key@, block.kind, block.body@));
    }
    text
}

/// Writes the bundle for the modules in `blocks`, in that order, and its
/// line map. With `dev` the bundle runs the development helper before the
/// entry module. The map's first entry is the line count of the header, and
/// each further entry the line count of the bundle after one more module;
/// its names are `[BUNDLER]` and the modules' keys.
pub fn emit(blocks: &Vec<Block>, dev: bool, entry: &str) -> (bundle: (
    String,
    Vec<usize>,
    Vec<String>,
))
    ensures
        bundle.0@ == bundle_text(block_views(blocks@), dev, entry@),
        bundle.1@.len() == blocks@.len() + 1,
        forall|i: int|
            0 <= i <= blocks@.len() ==> bundle.1@[i] == lines_after(block_views(blocks@), i),
        non_decreasing(bundle.1@),
        views(bundle.2@) == map_names(block_views(blocks@)),
{
    let ghost all = block_views(blocks@);
    let mut text = header();
    let mut lines: usize = 0;
    let mut source_map: Vec<usize> = Vec::new();
    let mut names: Vec<String> = Vec::new();
    let header_breaks = count_newlines(text.as_str());
    let header_length = text.as_str().unicode_len();
    proof {
        lemma_header_room(Seq::<char>::empty());
        assert(header_text() + Seq::<char>::empty() =~= header_text());
        assert(all.take(0) =~= Seq::<BlockView>::empty());
        assert(header_text() + blocks_text(all.take(0)) =~= header_text());
    }
    lines = header_breaks + 1;
    source_map.push(lines);
    names.push(String::from_str(BUNDLER));
    proof {
        assert(views(names@) =~= map_names(all.take(0)));
    }
    let mut i: usize = 0;
    while i < blocks.len()
        invariant
            i <= blocks.len(),
            all == block_views(blocks@),
            text@ == header_text() + blocks_text(all.take(i as int)),
            lines == line_count(text@),
            source_map@.len() == i + 1,
            forall|j: int| 0 <= j <= i ==> source_map@[j] == lines_after(all, j),
            views(names@) == map_names(all.take(i as int)),
        decreases blocks.len() - i,
    {
        let piece = block_string(&blocks[i]);
        let breaks = count_newlines(piece.as_str());
        let ghost before = text@;
        text.append(piece.as_str());
        let length = text.as_str().unicode_len();
        proof {
            assert(all[i as int] == blocks@[i as int]@);
            lemma_blocks_text_step(all, i as int);
            assert(text@ =~= header_text() + blocks_text(all.take(i + 1)));
            lemma_header_room(blocks_text(all.take(i + 1)));
            lemma_newlines_concat(before, piece@);
        }
        lines = lines + breaks;
        source_map.push(lines);
        let ghost names_before = views(names@);
        names.push(blocks[i].key.clone());
        proof {
            assert(views(names@) =~= names_before.push(blocks@[i as int].key@));
            assert(map_names(all.take(i + 1)) =~= map_names(all.take(i as int)).push(
                all[i as int].key,
            ));
        }
        i = i + 1;
    }
    proof {
        assert(all.take(i as int) == all);
        assert forall|a: int, b: int| 0 <= a <= b < source_map@.len() implies source_map@[a]
            <= source_map@[b] by {
            lemma_lines_grow(all, a, b);
        }
    }
    if dev {
        text.append("\n__LUAJOIN_FILES[\".dev\"](__LUAJOIN_require)");
    }
    text.append("\n__LUAJOIN_FILES[\"");
    text.append(entry);
    text.append("\"](__LUAJOIN_require)\n");
    proof {
        assert(text@ =~= bundle_text(all, dev, entry@));
    }
    (text, source_map, names)
}

} // verus!
