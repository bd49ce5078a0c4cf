//! Change intake: from the path of a file that has changed to the key of the
//! module that has to be read again.

use vstd::prelude::*;
use vstd::string::StrSliceExecFns;
use vstd::string::StringExecFns;
use crate::text::{to_chars, views};

verus! {

/// `s` with every backslash turned into a slash.
pub open spec fn slashes(s: Seq<char>) -> Seq<char> {
    s.map_values(
        |c: char|
            if c == '\\' {
                '/'
            } else {
                c
            },
    )
}

/// Whether `s` begins with `prefix`.
pub open spec fn has_prefix(s: Seq<char>, prefix: Seq<char>) -> bool {
    s.len() >= prefix.len() && s.take(prefix.len() as int) == prefix
}

/// Whether `s` ends with `suffix`.
pub open spec fn has_suffix(s: Seq<char>, suffix: Seq<char>) -> bool {
    s.len() >= suffix.len() && s.skip(s.len() - suffix.len()) == suffix
}

/// `s` without its last `n` characters.
pub open spec fn without_last(s: Seq<char>, n: nat) -> Seq<char> {
    s.take(s.len() - n)
}

/// The key of the module that a file stands for, from the file's path below
/// the source directory: the path without `.json`, else without
/// `/init.lua`, else without `.lua`. A file with another ending stands for
/// no module.
pub open spec fn key_of_file(file: Seq<char>) -> Option<Seq<char>> {
    if has_suffix(file, ".json"@) {
        Some(without_last(file, ".json"@.len()))
    } else if has_suffix(file, "/init.lua"@) {
        Some(without_last(file, "/init.lua"@.len()))
    } else if has_suffix(file, ".lua"@) {
        Some(without_last(file, ".lua"@.len()))
    } else {
        None
    }
}

/// The directory that the sources are in, as the start of a path: the
/// working directory, the source directory and a slash after each.
pub open spec fn source_root(cur_dir: Seq<char>, src_dir: Seq<char>) -> Seq<char> {
    slashes(cur_dir) + "/"@ + slashes(src_dir) + "/"@
}

/// The key of the module that has changed when the file at `file_name` has:
/// the file's path below the source directory, without its ending. Slashes
/// and backslashes count alike. None for a file outside the source directory
/// and for one that stands for no module.
pub open spec fn key_of_change(file_name: Seq<char>, cur_dir: Seq<char>, src_dir: Seq<char>)
    -> Option<Seq<char>> {
    let root = source_root(cur_dir, src_dir);
    if has_prefix(slashes(file_name), root) {
        key_of_file(slashes(file_name).skip(root.len() as int))
    } else {
        None
    }
}

/// Turns every backslash of `s` into a slash.
pub fn slashed(s: &str) -> (out: String)
    ensures
        out@ == slashes(s@),
{
    let chars = to_chars(s);
    let mut out = String::new();
    let mut i: usize = 0;
    proof {
        reveal_strlit("/");
    }
    while i < chars.len()
        invariant
            i <= chars.len(),
            chars@ == s@,
            "/"@ =~= seq!['/'],
            out@ == slashes(s@.take(i as int)),
        decreases chars.len() - i,
    {
        let ghost before = out@;
        if chars[i] == '\\' {
            out.append("/");
        } else {
            out.append(s.substring_char(i, i + 1));
        }
        proof {
            assert(s@.subrange(i as int, i + 1) =~= seq![s@[i as int]]);
            assert(out@ =~= slashes(s@.take(i + 1)));
        }
        i = i + 1;
    }
    proof {
        assert(s@.take(i as int) == s@);
    }
    out
}

/// Whether `s` begins with `prefix`.
pub fn starts_with(s: &str, prefix: &str) -> (yes: bool)
    ensures
        yes == has_prefix(s@, prefix@),
{
    let chars = to_chars(s);
    let head = to_chars(prefix);
    if chars.len() < head.len() {
        return false;
    }
    let mut i: usize = 0;
    while i < head.len()
        invariant
            i <= head.len() <= chars.len(),
            chars@ == s@,
            head@ == prefix@,
            forall|j: int| 0 <= j < i ==> s@[j] == prefix@[j],
        decreases head.len() - i,
    {
        if chars[i] != head[i] {
            proof {
                assert(s@.take(prefix@.len() as int)[i as int] != prefix@[i as int]);
            }
            return false;
        }
        i = i + 1;
    }
    proof {
        assert(s@.take(prefix@.len() as int) =~= prefix@);
    }
    true
}

/// `s` without `suffix` at its end, if it ends with it.
pub fn strip_suffix(s: &str, suffix: &str) -> (stripped: Option<String>)
    ensures
        match stripped {
            Some(rest) => has_suffix(s@, suffix@) && rest@ == without_last(s@, suffix@.len()),
            None => !has_suffix(s@, suffix@),
        },
{
    let chars = to_chars(s);
    let tail = to_chars(suffix);
    if chars.len() < tail.len() {
        return None;
    }
    let start = chars.len() - tail.len();
    let mut i: usize = 0;
    while i < tail.len()
        invariant
            i <= tail.len() <= chars.len(),
            start == chars.len() - tail.len(),
            chars@ == s@,
            tail@ == suffix@,
            forall|j: int| 0 <= j < i ==> s@[start + j] == suffix@[j],
        decreases tail.len() - i,
    {
        if chars[start + i] != tail[i] {
            proof {
                assert(s@.skip(start as int)[i as int] != suffix@[i as int]);
            }
            return None;
        }
        i = i + 1;
    }
    proof {
        assert(s@.skip(start as int) =~= suffix@);
        assert(s@.subrange(0, start as int) =~= without_last(s@, suffix@.len()));
    }
    Some(String::from_str(s.substring_char(0, start)))
}

/// The key of the module that the file `relative_file` stands for, where the
/// path is taken from the source directory.
pub fn module_key(relative_file: &str) -> (key: Option<String>)
    ensures
        match key {
            Some(text) => key_of_file(relative_file@) == Some(text@),
            None => key_of_file(relative_file@) is None,
        },
{
    match strip_suffix(relative_file, ".json") {
        Some(key) => Some(key),
        None => match strip_suffix(relative_file, "/init.lua") {
            Some(key) => Some(key),
            None => strip_suffix(relative_file, ".lua"),
        },
    }
}

/// The key of the module to read again when the file at `file_name` has
/// changed, for a project whose sources are in `src_dir` below `cur_dir`.
pub fn changed_module(file_name: &str, cur_dir: &str, src_dir: &str) -> (key: Option<String>)
    ensures
        match key {
            Some(text) => key_of_change(file_name@, cur_dir@, src_dir@) == Some(text@),
            None => key_of_change(file_name@, cur_dir@, src_dir@) is None,
        },
{
    let file = slashed(file_name);
    let mut root = slashed(cur_dir);
    root.append("/");
    let sources = slashed(src_dir);
    root.append(sources.as_str());
    root.append("/");
    if !starts_with(file.as_str(), root.as_str()) {
        return None;
    }
    let from = root.as_str().unicode_len();
    let to = file.as_str().unicode_len();
    let relative = file.as_str().substring_char(from, to);
    proof {
        assert(file@.subrange(from as int, to as int) =~= file@.skip(from as int));
    }
    module_key(relative)
}

/// The keys of the modules to read again when the files at these paths have
/// changed: one for every path that stands for a module, in the order of the
/// paths. A path that stands for none adds nothing.
pub open spec fn keys_of_changes(
    file_names: Seq<Seq<char>>,
    cur_dir: Seq<char>,
    src_dir: Seq<char>,
) -> Seq<Seq<char>>
    decreases file_names.len(),
{
    if file_names.len() == 0 {
        Seq::<Seq<char>>::empty()
    } else {
        let before = keys_of_changes(file_names.drop_last(), cur_dir, src_dir);
        match key_of_change(file_names.last(), cur_dir, src_dir) {
            Some(key) => before.push(key),
            None => before,
        }
    }
}

/// The keys of the modules to read again when the files at `file_names` have
/// changed. Where it is empty, nothing has to be built again.
pub fn changed_modules(file_names: &Vec<String>, cur_dir: &str, src_dir: &str) -> (keys: Vec<
    String,
>)
    ensures
        views(keys@) == keys_of_changes(
            views(file_names@),
            cur_dir@,
            src_dir@,
        ),
{
    let mut keys: Vec<String> = Vec::new();
    let mut i: usize = 0;
    let ghost names = views(file_names@);
    proof {
        assert(names.take(0) =~= Seq::<Seq<char>>::empty());
        assert(views(keys@) =~= Seq::<Seq<char>>::empty());
    }
    while i < file_names.len()
        invariant
            i <= file_names.len(),
            names == views(file_names@),
            views(keys@) == keys_of_changes(names.take(i as int), cur_dir@, src_dir@),
        decreases file_names.len() - i,
    {
        proof {
            assert(names.take(i + 1).drop_last() == names.take(i as int));
            assert(names.take(i + 1).last() == file_names@[i as int]@);
        }
        match changed_module(file_names[i].as_str(), cur_dir, src_dir) {
            Some(key) => {
                let ghost before = views(keys@);
                keys.push(key);
                proof {
                    assert(views(keys@) =~= before.push(key@));
                }
            },
            None => {},
        }
        i = i + 1;
    }
    proof {
        assert(names.take(i as int) == names);
    }
    keys
}

} // verus!
