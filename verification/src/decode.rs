//! Reading the project's own JSON files: the configuration, the line map
//! that is written beside a bundle, and the error report of a client.

use vstd::prelude::*;
use crate::config::Config;
use crate::json::Json;
use crate::protocol::ErrorLog;
use crate::source_map::SourceMap;
use crate::text::{to_chars, views};

verus! {

/// The value of a decimal digit.
pub open spec fn digit_value(c: char) -> Option<nat> {
    if c == '0' {
        Some(0)
    } else if c == '1' {
        Some(1)
    } else if c == '2' {
        Some(2)
    } else if c == '3' {
        Some(3)
    } else if c == '4' {
        Some(4)
    } else if c == '5' {
        Some(5)
    } else if c == '6' {
        Some(6)
    } else if c == '7' {
        Some(7)
    } else if c == '8' {
        Some(8)
    } else if c == '9' {
        Some(9)
    } else {
        None
    }
}

/// The number that a text of decimal digits stands for; none for an empty
/// text and for one that holds anything but digits.
pub open spec fn number_of(text: Seq<char>) -> Option<nat>
    decreases text.len(),
{
    if text.len() == 0 {
        None
    } else {
        match digit_value(text.last()) {
            None => None,
            Some(d) => if text.len() == 1 {
                Some(d)
            } else {
                match number_of(text.drop_last()) {
                    Some(before) => Some(before * 10 + d),
                    None => None,
                }
            },
        }
    }
}

/// The value under `name` in a list of fields: that of the first field with
/// that name.
pub open spec fn field_of(fields: Seq<(String, Json)>, name: Seq<char>) -> Option<Json>
    decreases fields.len(),
{
    if fields.len() == 0 {
        None
    } else if fields[0].0@ == name {
        Some(fields[0].1)
    } else {
        field_of(fields.drop_first(), name)
    }
}

/// The member `name` of a document, if the document is an object that has
/// one.
pub open spec fn member(json: Json, name: Seq<char>) -> Option<Json> {
    match json {
        Json::Object(fields) => field_of(fields@, name),
        _ => None,
    }
}

/// The text of a document that is a string.
pub open spec fn text_of(json: Json) -> Option<Seq<char>> {
    match json {
        Json::String(text) => Some(text@),
        _ => None,
    }
}

/// The text of the member `name` of a document.
pub open spec fn text_at(json: Json, name: Seq<char>) -> Option<Seq<char>> {
    match member(json, name) {
        Some(value) => text_of(value),
        None => None,
    }
}

/// The count that a document stands for: a number written in digits alone
/// that fits the machine's word.
pub open spec fn count_of(json: Json) -> Option<usize> {
    match json {
        Json::Number(text) => match number_of(text@) {
            Some(n) => if n <= usize::MAX {
                Some(n as usize)
            } else {
                None
            },
            None => None,
        },
        _ => None,
    }
}

/// The counts that a list of documents holds, or none where one of them is
/// no count.
pub open spec fn counts_in(items: Seq<Json>) -> Option<Seq<usize>>
    decreases items.len(),
{
    if items.len() == 0 {
        Some(Seq::<usize>::empty())
    } else {
        match (counts_in(items.drop_last()), count_of(items.last())) {
            (Some(before), Some(count)) => Some(before.push(count)),
            _ => None,
        }
    }
}

/// The counts of a document that is an array of counts.
pub open spec fn counts_of(json: Json) -> Option<Seq<usize>> {
    match json {
        Json::Array(items) => counts_in(items@),
        _ => None,
    }
}

/// The counts of the member `name` of a document.
pub open spec fn counts_at(json: Json, name: Seq<char>) -> Option<Seq<usize>> {
    match member(json, name) {
        Some(value) => counts_of(value),
        None => None,
    }
}

/// The texts that a list of documents holds, or none where one of them is no
/// string.
pub open spec fn texts_in(items: Seq<Json>) -> Option<Seq<Seq<char>>>
    decreases items.len(),
{
    if items.len() == 0 {
        Some(Seq::<Seq<char>>::empty())
    } else {
        match (texts_in(items.drop_last()), items.last()) {
            (Some(before), Json::String(text)) => Some(before.push(text@)),
            _ => None,
        }
    }
}

/// The texts of a document that is an array of strings.
pub open spec fn texts_of(json: Json) -> Option<Seq<Seq<char>>> {
    match json {
        Json::Array(items) => texts_in(items@),
        _ => None,
    }
}

/// The texts of the member `name` of a document.
pub open spec fn texts_at(json: Json, name: Seq<char>) -> Option<Seq<Seq<char>>> {
    match member(json, name) {
        Some(value) => texts_of(value),
        None => None,
    }
}

/// A prefix of a text of digits is a text of digits, and stands for no
/// greater number.
pub proof fn lemma_number_prefix(text: Seq<char>, n: int)
    requires
        1 <= n <= text.len(),
        number_of(text) is Some,
    ensures
        number_of(text.take(n)) is Some,
        number_of(text.take(n))->0 <= number_of(text)->0,
    decreases text.len(),
{
    if n == text.len() {
        assert(text.take(n) == text);
    } else {
        assert(text.drop_last().take(n) == text.take(n));
        lemma_number_prefix(text.drop_last(), n);
    }
}

/// A text with something other than a digit in it stands for no number.
pub proof fn lemma_number_all_digits(text: Seq<char>, i: int)
    requires
        0 <= i < text.len(),
        digit_value(text[i]) is None,
    ensures
        number_of(text) is None,
    decreases text.len(),
{
    if i < text.len() - 1 {
        lemma_number_all_digits(text.drop_last(), i);
    }
}

/// The value of a character that is a decimal digit.
pub fn digit_of(c: char) -> (value: Option<usize>)
    ensures
        match value {
            Some(d) => digit_value(c) == Some(d as nat) && d < 10,
            None => digit_value(c) is None,
        },
{
    if c == '0' {
        Some(0)
    } else if c == '1' {
        Some(1)
    } else if c == '2' {
        Some(2)
    } else if c == '3' {
        Some(3)
    } else if c == '4' {
        Some(4)
    } else if c == '5' {
        Some(5)
    } else if c == '6' {
        Some(6)
    } else if c == '7' {
        Some(7)
    } else if c == '8' {
        Some(8)
    } else if c == '9' {
        Some(9)
    } else {
        None
    }
}

/// Reads a text of decimal digits as a number. None for a text that is
/// empty, holds anything but digits, or stands for a number that does not
/// fit the machine's word.
pub fn parse_count(text: &str) -> (count: Option<usize>)
    ensures
        match count {
            Some(n) => number_of(text@) == Some(n as nat),
            None => number_of(text@) is None || number_of(text@)->0 > usize::MAX,
        },
{
    let chars = to_chars(text);
    if chars.len() == 0 {
        return None;
    }
    let mut value: usize = 0;
    let mut i: usize = 0;
    while i < chars.len()
        invariant
            i <= chars.len(),
            chars@ == text@,
            i > 0 ==> number_of(text@.take(i as int)) == Some(value as nat),
            i == 0 ==> value == 0,
        decreases chars.len() - i,
    {
        proof {
            assert(text@.take(i + 1).drop_last() == text@.take(i as int));
        }
        match digit_of(chars[i]) {
            None => {
                proof {
                    lemma_number_all_digits(text@, i as int);
                }
                return None;
            },
            Some(d) => {
                if value > (usize::MAX - d) / 10 {
                    proof {
                        if number_of(text@) is Some {
                            lemma_number_prefix(text@, i + 1);
                        }
                    }
                    return None;
                }
                value = value * 10 + d;
            },
        }
        i = i + 1;
    }
    proof {
        assert(text@.take(i as int) == text@);
    }
    Some(value)
}

/// The member `name` of a document.
pub fn get_member<'a>(json: &'a Json, name: &str) -> (found: Option<&'a Json>)
    ensures
        match found {
            Some(value) => member(*json, name@) == Some(*value),
            None => member(*json, name@) is None,
        },
{
    match json {
        Json::Object(fields) => {
            let wanted = to_chars(name);
            let mut i: usize = 0;
            proof {
                assert(fields@.skip(0) =~= fields@);
            }
            while i < fields.len()
                invariant
                    i <= fields.len(),
                    wanted@ == name@,
                    member(*json, name@) == field_of(fields@, name@),
                    field_of(fields@, name@) == field_of(fields@.skip(i as int), name@),
                decreases fields.len() - i,
            {
                let key = to_chars(fields[i].0.as_str());
                proof {
                    assert(fields@.skip(i as int)[0] == fields@[i as int]);
                    assert(fields@.skip(i as int).drop_first() == fields@.skip(i + 1));
                }
                if same_chars(&key, &wanted) {
                    return Some(&fields[i].1);
                }
                i = i + 1;
            }
            None
        },
        _ => None,
    }
}

/// Whether two lists of characters are the same.
pub fn same_chars(a: &Vec<char>, b: &Vec<char>) -> (same: bool)
    ensures
        same == (a@ == b@),
{
    if a.len() != b.len() {
        return false;
    }
    let mut i: usize = 0;
    while i < a.len()
        invariant
            i <= a.len(),
            a.len() == b.len(),
            forall|j: int| 0 <= j < i ==> a@[j] == b@[j],
        decreases a.len() - i,
    {
        if a[i] != b[i] {
            return false;
        }
        i = i + 1;
    }
    proof {
        assert(a@ =~= b@);
    }
    true
}

/// The text of a document that is a string.
pub fn get_text(json: &Json) -> (text: Option<String>)
    ensures
        match text {
            Some(found) => text_of(*json) == Some(found@),
            None => text_of(*json) is None,
        },
{
    match json {
        Json::String(text) => Some(text.clone()),
        _ => None,
    }
}

/// The count that a document stands for.
pub fn get_count(json: &Json) -> (count: Option<usize>)
    ensures
        count == count_of(*json),
{
    match json {
        Json::Number(text) => parse_count(text.as_str()),
        _ => None,
    }
}

/// The counts of a document that is an array of counts.
pub fn get_counts(json: &Json) -> (counts: Option<Vec<usize>>)
    ensures
        match counts {
            Some(found) => counts_of(*json) == Some(found@),
            None => counts_of(*json) is None,
        },
{
    match json {
        Json::Array(items) => {
            let mut counts: Vec<usize> = Vec::new();
            let mut i: usize = 0;
            proof {
                assert(items@.take(0) =~= Seq::<Json>::empty());
            }
            while i < items.len()
                invariant
                    i <= items.len(),
                    *json == Json::Array(*items),
                    counts_in(items@.take(i as int)) == Some(counts@),
                decreases items.len() - i,
            {
                proof {
                    assert(items@.take(i + 1).drop_last() == items@.take(i as int));
                }
                match get_count(&items[i]) {
                    Some(count) => {
                        counts.push(count);
                    },
                    None => {
                        proof {
                            lemma_counts_prefix(items@, i + 1);
                        }
                        return None;
                    },
                }
                i = i + 1;
            }
            proof {
                assert(items@.take(i as int) == items@);
            }
            Some(counts)
        },
        _ => None,
    }
}

/// A list that starts with documents that are not all counts is not a list
/// of counts.
pub proof fn lemma_counts_prefix(items: Seq<Json>, n: int)
    requires
        0 <= n <= items.len(),
        counts_in(items.take(n)) is None,
    ensures
        counts_in(items) is None,
    decreases items.len(),
{
    if n < items.len() {
        assert(items.drop_last().take(n) == items.take(n));
        lemma_counts_prefix(items.drop_last(), n);
    } else {
        assert(items.take(n) == items);
    }
}

/// A list that starts with documents that are not all strings is not a list
/// of strings.
pub proof fn lemma_texts_prefix(items: Seq<Json>, n: int)
    requires
        0 <= n <= items.len(),
        texts_in(items.take(n)) is None,
    ensures
        texts_in(items) is None,
    decreases items.len(),
{
    if n < items.len() {
        assert(items.drop_last().take(n) == items.take(n));
        lemma_texts_prefix(items.drop_last(), n);
    } else {
        assert(items.take(n) == items);
    }
}

/// The texts of a document that is an array of strings.
pub fn get_texts(json: &Json) -> (texts: Option<Vec<String>>)
    ensures
        match texts {
            Some(found) => texts_of(*json) == Some(views(found@)),
            None => texts_of(*json) is None,
        },
{
    match json {
        Json::Array(items) => {
            let mut texts: Vec<String> = Vec::new();
            let mut i: usize = 0;
            proof {
                assert(items@.take(0) =~= Seq::<Json>::empty());
                assert(views(texts@) =~= Seq::<Seq<char>>::empty());
            }
            while i < items.len()
                invariant
                    i <= items.len(),
                    *json == Json::Array(*items),
                    texts_in(items@.take(i as int)) == Some(views(texts@)),
                decreases items.len() - i,
            {
                proof {
                    assert(items@.take(i + 1).drop_last() == items@.take(i as int));
                }
                match &items[i] {
                    Json::String(text) => {
                        let ghost before = views(texts@);
                        texts.push(text.clone());
                        proof {
                            assert(views(texts@) =~= before.push(text@));
                        }
                    },
                    _ => {
                        proof {
                            lemma_texts_prefix(items@, i + 1);
                        }
                        return None;
                    },
                }
                i = i + 1;
            }
            proof {
                assert(items@.take(i as int) == items@);
            }
            Some(texts)
        },
        _ => None,
    }
}

/// The text of the member `name` of a document.
pub fn member_text(json: &Json, name: &str) -> (text: Option<String>)
    ensures
        match text {
            Some(found) => text_at(*json, name@) == Some(found@),
            None => text_at(*json, name@) is None,
        },
{
    match get_member(json, name) {
        Some(value) => get_text(value),
        None => None,
    }
}

/// The counts of the member `name` of a document.
pub fn member_counts(json: &Json, name: &str) -> (counts: Option<Vec<usize>>)
    ensures
        match counts {
            Some(found) => counts_at(*json, name@) == Some(found@),
            None => counts_at(*json, name@) is None,
        },
{
    match get_member(json, name) {
        Some(value) => get_counts(value),
        None => None,
    }
}

/// The texts of the member `name` of a document.
pub fn member_texts(json: &Json, name: &str) -> (texts: Option<Vec<String>>)
    ensures
        match texts {
            Some(found) => texts_at(*json, name@) == Some(views(found@)),
            None => texts_at(*json, name@) is None,
        },
{
    match get_member(json, name) {
        Some(value) => get_texts(value),
        None => None,
    }
}

/// Reads a configuration: an object with the strings `src_dir`, `out_dir`
/// and `entry_file`. None where one of them is missing or no string.
pub fn config_of(json: &Json) -> (config: Option<Config>)
    ensures
        match config {
            Some(found) => {
                &&& text_at(*json, "src_dir"@) == Some(found.src_dir@)
                &&& text_at(*json, "out_dir"@) == Some(found.out_dir@)
                &&& text_at(*json, "entry_file"@) == Some(found.entry_file@)
            },
            None => text_at(*json, "src_dir"@) is None || text_at(*json, "out_dir"@) is None
                || text_at(*json, "entry_file"@) is None,
        },
{
    let src_dir = member_text(json, "src_dir");
    let out_dir = member_text(json, "out_dir");
    let entry_file = member_text(json, "entry_file");
    match (src_dir, out_dir, entry_file) {
        (Some(src_dir), Some(out_dir), Some(entry_file)) => Some(
            Config { entry_file, src_dir, out_dir },
        ),
        _ => None,
    }
}

/// Reads a line map: an object with the strings `files` and the counts
/// `sources`. None where one of them is missing or of another shape.
pub fn source_map_of(json: &Json) -> (map: Option<SourceMap>)
    ensures
        match map {
            Some(found) => {
                &&& texts_at(*json, "files"@) == Some(views(found.files@))
                &&& counts_at(*json, "sources"@) == Some(found.sources@)
            },
            None => texts_at(*json, "files"@) is None || counts_at(*json, "sources"@) is None,
        },
{
    let files = member_texts(json, "files");
    let sources = member_counts(json, "sources");
    match (files, sources) {
        (Some(files), Some(sources)) => Some(SourceMap { files, sources }),
        _ => None,
    }
}

/// Reads the report of a runtime error: an object with the counts
/// `message_lines` and `stack_trace_lines` and the string `message_content`.
/// None where one of them is missing or of another shape.
pub fn error_log_of(json: &Json) -> (log: Option<ErrorLog>)
    ensures
        match log {
            Some(found) => {
                &&& counts_at(*json, "message_lines"@) == Some(found.message_lines@)
                &&& counts_at(*json, "stack_trace_lines"@) == Some(found.stack_trace_lines@)
                &&& text_at(*json, "message_content"@) == Some(found.message_content@)
            },
            None => counts_at(*json, "message_lines"@) is None || counts_at(
                *json,
                "stack_trace_lines"@,
            ) is None || text_at(*json, "message_content"@) is None,
        },
{
    let message_lines = member_counts(json, "message_lines");
    let stack_trace_lines = member_counts(json, "stack_trace_lines");
    let message_content = member_text(json, "message_content");
    match (message_lines, stack_trace_lines, message_content) {
        (Some(message_lines), Some(stack_trace_lines), Some(message_content)) => Some(
            ErrorLog { message_lines, stack_trace_lines, message_content },
        ),
        _ => None,
    }
}

} // verus!
