//! Writing the project's own JSON files: the line map that goes beside a
//! bundle, the configuration, and the arrays of strings that are sent to
//! clients.

use vstd::prelude::*;
use vstd::string::StringExecFns;
use crate::config::Config;
use crate::protocol::{decimal, decimal_string};
use crate::source_map::SourceMap;
use crate::text::views;

verus! {

/// A text as a JSON string: between double quotes, with what JSON asks to be
/// escaped escaped.
pub uninterp spec fn json_string(text: Seq<char>) -> Seq<char>;

/// The texts as JSON strings with a comma between neighbours.
pub open spec fn strings_list(parts: Seq<Seq<char>>) -> Seq<char>
    decreases parts.len(),
{
    if parts.len() == 0 {
        Seq::<char>::empty()
    } else if parts.len() == 1 {
        json_string(parts[0])
    } else {
        strings_list(parts.drop_last()) + ","@ + json_string(parts.last())
    }
}

/// The JSON array of the texts, without any space.
pub open spec fn strings_text(parts: Seq<Seq<char>>) -> Seq<char> {
    "["@ + strings_list(parts) + "]"@
}

/// The counts in decimal with a comma between neighbours.
pub open spec fn counts_list(counts: Seq<usize>) -> Seq<char>
    decreases counts.len(),
{
    if counts.len() == 0 {
        Seq::<char>::empty()
    } else if counts.len() == 1 {
        decimal(counts[0] as nat)
    } else {
        counts_list(counts.drop_last()) + ","@ + decimal(counts.last() as nat)
    }
}

/// The JSON text of a line map: an object with the names under `files` and
/// the line counts under `sources`, without any space.
pub open spec fn map_text(files: Seq<Seq<char>>, sources: Seq<usize>) -> Seq<char> {
    "{\"files\":"@ + strings_text(files) + ",\"sources\":["@ + counts_list(sources) + "]}"@
}

/// The JSON text of a configuration: an object with the entry module, the
/// source directory and the output directory, one to a line, indented by two
/// spaces.
pub open spec fn config_text(entry_file: Seq<char>, src_dir: Seq<char>, out_dir: Seq<char>)
    -> Seq<char> {
    "{\n  \"entry_file\": "@ + json_string(entry_file) + ",\n  \"src_dir\": "@ + json_string(
        src_dir,
    ) + ",\n  \"out_dir\": "@ + json_string(out_dir) + "\n}"@
}

/// `serde_json::to_string` on a `str`: the text as a JSON string. It writes
/// into memory and a `str` has nothing that cannot be written, so it does
/// not fail. The same text always gives the same string.
#[verifier::external_body]
fn write_string(text: &str) -> (written: Result<String, serde_json::Error>)
    ensures
        written is Ok,
        written matches Ok(quoted) ==> quoted@ == json_string(text@),
{
    serde_json::to_string(text)
}

/// Writes a text as a JSON string.
pub fn quote(text: &str) -> (quoted: String)
    ensures
        quoted@ == json_string(text@),
{
    match write_string(text) {
        Ok(quoted) => quoted,
        Err(_) => String::new(),
    }
}

/// Writes the texts as a JSON array of strings.
pub fn write_strings(parts: &Vec<String>) -> (text: String)
    ensures
        text@ == strings_text(views(parts@)),
{
    let mut text = String::from_str("[");
    let mut i: usize = 0;
    proof {
        assert(views(parts@).take(0) =~= Seq::<Seq<char>>::empty());
        assert("["@ + Seq::<char>::empty() =~= "["@);
    }
    while i < parts.len()
        invariant
            i <= parts.len(),
            text@ == "["@ + strings_list(views(parts@).take(i as int)),
        decreases parts.len() - i,
    {
        proof {
            let done = views(parts@).take(i + 1);
            assert(done.drop_last() == views(parts@).take(i as int));
            assert(done.last() == parts@[i as int]@);
            if i == 0 {
                assert(done[0] == parts@[0]@);
            }
        }
        let quoted = quote(parts[i].as_str());
        if i > 0 {
            text.append(",");
        }
        text.append(quoted.as_str());
        proof {
            assert(text@ =~= "["@ + strings_list(views(parts@).take(i + 1)));
        }
        i = i + 1;
    }
    proof {
        assert(views(parts@).take(i as int) == views(parts@));
    }
    text.append("]");
    text
}

/// Writes the counts in decimal with a comma between neighbours.
pub fn write_counts(counts: &Vec<usize>) -> (text: String)
    ensures
        text@ == counts_list(counts@),
{
    let mut text = String::new();
    let mut i: usize = 0;
    proof {
        assert(counts@.take(0) =~= Seq::<usize>::empty());
    }
    while i < counts.len()
        invariant
            i <= counts.len(),
            text@ == counts_list(counts@.take(i as int)),
        decreases counts.len() - i,
    {
        proof {
            assert(counts@.take(i + 1).drop_last() == counts@.take(i as int));
        }
        if i > 0 {
            text.append(",");
        }
        let number = decimal_string(counts[i]);
        let ghost before = text@;
        text.append(number.as_str());
        proof {
            if i == 0 {
                assert(before =~= Seq::<char>::empty());
                assert(text@ =~= decimal(counts@[0] as nat));
            }
        }
        i = i + 1;
    }
    proof {
        assert(counts@.take(i as int) == counts@);
    }
    text
}

/// Writes a line map as the JSON object that goes beside the bundle.
pub fn source_map_text(map: &SourceMap) -> (text: String)
    ensures
        text@ == map_text(views(map.files@), map.sources@),
{
    let names = write_strings(&map.files);
    let mut text = String::from_str("{\"files\":");
    text.append(names.as_str());
    text.append(",\"sources\":[");
    let counts = write_counts(&map.sources);
    text.append(counts.as_str());
    text.append("]}");
    text
}

/// Writes a configuration as the JSON object that the project file holds.
pub fn write_config(config: &Config) -> (text: String)
    ensures
        text@ == config_text(config.entry_file@, config.src_dir@, config.out_dir@),
{
    let entry = quote(config.entry_file.as_str());
    let src = quote(config.src_dir.as_str());
    let out = quote(config.out_dir.as_str());
    let mut text = String::from_str("{\n  \"entry_file\": ");
    text.append(entry.as_str());
    text.append(",\n  \"src_dir\": ");
    text.append(src.as_str());
    text.append(",\n  \"out_dir\": ");
    text.append(out.as_str());
    text.append("\n}");
    text
}

} // verus!
