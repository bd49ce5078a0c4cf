//! Data modules: a JSON document becomes a Lua expression that builds the
//! same value, so that a data file can be required like a script.

use vstd::prelude::*;
use vstd::string::StrSliceExecFns;
use vstd::string::StringExecFns;
use crate::protocol::{decimal, decimal_string};
use crate::text::to_chars;

verus! {

/// A JSON document. A number is kept as the text that stands for it.
#[derive(Debug)]
pub enum Json {
    Null,
    Bool(bool),
    Number(String),
    String(String),
    Array(Vec<Json>),
    Object(Vec<(String, Json)>),
}

/// `serde_json::Value`, carried through unopened.
#[verifier::external_type_specification]
#[verifier::external_body]
pub struct ExJsonValue(serde_json::Value);

/// `serde_json::Error`, carried through unopened.
#[verifier::external_type_specification]
#[verifier::external_body]
pub struct ExJsonError(serde_json::Error);

/// The document that a text holds, or none where the text is no JSON.
pub uninterp spec fn json_document(text: Seq<char>) -> Option<Json>;

/// Whether a character is a control character: one below the space, or the
/// delete character.
pub open spec fn is_control(c: char) -> bool {
    (c as u32) < 32 || c as u32 == 127
}

/// A number below a thousand in three decimal digits.
pub open spec fn three_digits(n: nat) -> Seq<char> {
    if n < 10 {
        "00"@ + decimal(n)
    } else if n < 100 {
        "0"@ + decimal(n)
    } else {
        decimal(n)
    }
}

/// A character as it stands inside a Lua string between double quotes: a
/// backslash before a backslash and before a double quote, `\n` and `\r` for
/// the line breaks, a backslash and the character's number in three digits
/// for any other control character, and every other character as it is.
pub open spec fn escaped_char(c: char) -> Seq<char> {
    if c == '\\' {
        "\\\\"@
    } else if c == '"' {
        "\\\""@
    } else if c == '\n' {
        "\\n"@
    } else if c == '\r' {
        "\\r"@
    } else if is_control(c) {
        "\\"@ + three_digits(c as u32 as nat)
    } else {
        seq![c]
    }
}

/// A text as it stands inside a Lua string between double quotes.
pub open spec fn lua_escaped(text: Seq<char>) -> Seq<char>
    decreases text.len(),
{
    if text.len() == 0 {
        Seq::<char>::empty()
    } else {
        lua_escaped(text.drop_last()) + escaped_char(text.last())
    }
}

/// The Lua expression for a document: a table constructor for an object,
/// with a bracketed string key before each value, and for an array, with the
/// values in order; `true`, `false` and `nil` for the constants; a number as
/// its text; a string between double quotes, with what Lua would misread
/// written as escapes. Every entry of a table is followed by a comma.
pub open spec fn lua_literal(json: Json) -> Seq<char>
    decreases json,
{
    match json {
        Json::Null => "nil"@,
        Json::Bool(value) => if value {
            "true"@
        } else {
            "false"@
        },
        Json::Number(text) => text@,
        Json::String(text) => "\""@ + lua_escaped(text@) + "\""@,
        Json::Array(items) => "{"@ + lua_items(items@) + "}"@,
        Json::Object(fields) => "{"@ + lua_fields(fields@) + "}"@,
    }
}

/// The entries of an array's table.
pub open spec fn lua_items(items: Seq<Json>) -> Seq<char>
    decreases items,
{
    if items.len() == 0 {
        Seq::<char>::empty()
    } else {
        lua_items(items.drop_last()) + lua_literal(items.last()) + ","@
    }
}

/// The entries of an object's table.
pub open spec fn lua_fields(fields: Seq<(String, Json)>) -> Seq<char>
    decreases fields,
{
    if fields.len() == 0 {
        Seq::<char>::empty()
    } else {
        lua_fields(fields.drop_last()) + "[\""@ + lua_escaped(fields.last().0@) + "\"]="@ + lua_literal(
            fields.last().1,
        ) + ","@
    }
}

/// The body of a data module: a `return` of the document's expression.
pub open spec fn json_module(json: Json) -> Seq<char> {
    "return "@ + lua_literal(json)
}

/// `serde_json::Value` as a `Json`, variant for variant; a number becomes the
/// text that `serde_json` prints for it, and an object's fields keep the
/// order in which its map hands them out.
#[verifier::external_body]
fn json_value(value: &serde_json::Value) -> (json: Json) {
    match value {
        serde_json::Value::Null => Json::Null,
        serde_json::Value::Bool(flag) => Json::Bool(*flag),
        serde_json::Value::Number(number) => Json::Number(number.to_string()),
        serde_json::Value::String(text) => Json::String(text.clone()),
        serde_json::Value::Array(items) => Json::Array(items.iter().map(json_value).collect()),
        serde_json::Value::Object(fields) => Json::Object(
            fields.iter().map(|(key, item)| (key.clone(), json_value(item))).collect(),
        ),
    }
}

/// `serde_json::from_str`, read as a `serde_json::Value`: the document that
/// the text holds, or the parser's error where it holds none. The same text
/// always gives the same document.
#[verifier::external_body]
fn read_json(text: &str) -> (read: Result<Json, serde_json::Error>)
    ensures
        match read {
            Ok(json) => json_document(text@) == Some(json),
            Err(_) => json_document(text@) is None,
        },
{
    match serde_json::from_str::<serde_json::Value>(text) {
        Ok(value) => Ok(json_value(&value)),
        Err(error) => Err(error),
    }
}

/// What `serde_json::Error` prints: the parser's account of what is wrong
/// with a text, and where.
#[verifier::external_body]
fn json_error_text(error: &serde_json::Error) -> (text: String) {
    error.to_string()
}

/// Reads a text as a JSON document; the error is the parser's message.
pub fn parse_json(text: &str) -> (parsed: Result<Json, String>)
    ensures
        match parsed {
            Ok(json) => json_document(text@) == Some(json),
            Err(_) => json_document(text@) is None,
        },
{
    match read_json(text) {
        Ok(json) => Ok(json),
        Err(error) => Err(json_error_text(&error)),
    }
}

/// Writes a text as it stands inside a Lua string between double quotes.
pub fn escape_lua(text: &str) -> (escaped: String)
    ensures
        escaped@ == lua_escaped(text@),
{
    let chars = to_chars(text);
    let mut escaped = String::new();
    let mut i: usize = 0;
    while i < chars.len()
        invariant
            i <= chars.len(),
            chars@ == text@,
            escaped@ == lua_escaped(text@.take(i as int)),
        decreases chars.len() - i,
    {
        proof {
            assert(text@.take(i + 1).drop_last() == text@.take(i as int));
        }
        let c = chars[i];
        let code = c as u32;
        if c == '\\' {
            escaped.append("\\\\");
        } else if c == '"' {
            escaped.append("\\\"");
        } else if c == '\n' {
            escaped.append("\\n");
        } else if c == '\r' {
            escaped.append("\\r");
        } else if code < 32 || code == 127 {
            escaped.append("\\");
            if code < 10 {
                escaped.append("00");
            } else if code < 100 {
                escaped.append("0");
            }
            let number = decimal_string(code as usize);
            escaped.append(number.as_str());
            proof {
                assert(number@ == decimal(code as nat));
                assert(escaped@ =~= lua_escaped(text@.take(i as int)) + ("\\"@ + three_digits(
                    code as nat,
                )));
            }
        } else {
            escaped.append(text.substring_char(i, i + 1));
            proof {
                assert(text@.subrange(i as int, i + 1) =~= seq![c]);
            }
        }
        i = i + 1;
    }
    proof {
        assert(text@.take(i as int) == text@);
    }
    escaped
}

/// Writes a JSON document as a Lua expression.
pub fn json_to_lua(json: &Json) -> (lua: String)
    ensures
        lua@ == lua_literal(*json),
    decreases json,
{
    match json {
        Json::Null => String::from_str("nil"),
        Json::Bool(value) => if *value {
            String::from_str("true")
        } else {
            String::from_str("false")
        },
        Json::Number(text) => text.clone(),
        Json::String(text) => {
            let mut lua = String::from_str("\"");
            let escaped = escape_lua(text.as_str());
            lua.append(escaped.as_str());
            lua.append("\"");
            lua
        },
        Json::Array(items) => {
            let mut lua = String::from_str("{");
            let mut i: usize = 0;
            while i < items.len()
                invariant
                    i <= items.len(),
                    decreases_to!(*json => items@),
                    lua@ == "{"@ + lua_items(items@.take(i as int)),
                decreases items.len() - i,
            {
                proof {
                    assert(items@.take(i + 1).drop_last() == items@.take(i as int));
                    assert(decreases_to!(items@ => items@[i as int]));
                }
                let item = json_to_lua(&items[i]);
                lua.append(item.as_str());
                lua.append(",");
                proof {
                    assert(lua@ =~= "{"@ + lua_items(items@.take(i + 1)));
                }
                i = i + 1;
            }
            proof {
                assert(items@.take(i as int) == items@);
            }
            lua.append("}");
            lua
        },
        Json::Object(fields) => {
            let mut lua = String::from_str("{");
            let mut i: usize = 0;
            while i < fields.len()
                invariant
                    i <= fields.len(),
                    decreases_to!(*json => fields@),
                    lua@ == "{"@ + lua_fields(fields@.take(i as int)),
                decreases fields.len() - i,
            {
                proof {
                    assert(fields@.take(i + 1).drop_last() == fields@.take(i as int));
                    assert(decreases_to!(fields@ => fields@[i as int]));
                }
                let item = json_to_lua(&fields[i].1);
                lua.append("[\"");
                let key = escape_lua(fields[i].0.as_str());
                lua.append(key.as_str());
                lua.append("\"]=");
                lua.append(item.as_str());
                lua.append(",");
                proof {
                    assert(lua@ =~= "{"@ + lua_fields(fields@.take(i + 1)));
                }
                i = i + 1;
            }
            proof {
                assert(fields@.take(i as int) == fields@);
            }
            lua.append("}");
            lua
        },
    }
}

/// The body of the module that stands for a JSON document.
pub fn json_module_body(json: &Json) -> (body: String)
    ensures
        body@ == json_module(*json),
{
    let mut body = String::from_str("return ");
    let lua = json_to_lua(json);
    body.append(lua.as_str());
    body
}

} // verus!
