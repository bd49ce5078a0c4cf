use luajoin::json::{json_module_body, json_to_lua, parse_json, Json};

fn lua(text: &str) -> String {
    json_to_lua(&parse_json(text).unwrap())
}

#[test]
fn constants() {
    assert_eq!(lua("null"), "nil");
    assert_eq!(lua("true"), "true");
    assert_eq!(lua("false"), "false");
}

#[test]
fn numbers_keep_their_canonical_text() {
    assert_eq!(lua("1"), "1");
    assert_eq!(lua("-17"), "-17");
    assert_eq!(lua("2.5"), "2.5");
    assert_eq!(lua("1e3"), "1000.0");
    assert_eq!(lua("18446744073709551615"), "18446744073709551615");
}

#[test]
fn strings_are_quoted() {
    assert_eq!(lua("\"hello\""), "\"hello\"");
    assert_eq!(lua("\"\""), "\"\"");
}

#[test]
fn arrays_and_objects() {
    assert_eq!(lua("[]"), "{}");
    assert_eq!(lua("{}"), "{}");
    assert_eq!(lua("[1,2,3]"), "{1,2,3,}");
    assert_eq!(lua("{\"a\":1,\"b\":[true,null]}"), "{[\"a\"]=1,[\"b\"]={true,nil,},}");
    assert_eq!(lua("[[],[[]]]"), "{{},{{},},}");
}

#[test]
fn object_keys_come_in_the_order_of_the_parser() {
    assert_eq!(lua("{\"b\":1,\"a\":2}"), "{[\"a\"]=2,[\"b\"]=1,}");
}

#[test]
fn document_built_by_hand() {
    let json = Json::Object(vec![
        (String::from("name"), Json::String(String::from("x"))),
        (String::from("tags"), Json::Array(vec![Json::Null, Json::Bool(false)])),
        (String::from("n"), Json::Number(String::from("0.5"))),
    ]);
    assert_eq!(json_to_lua(&json), "{[\"name\"]=\"x\",[\"tags\"]={nil,false,},[\"n\"]=0.5,}");
    assert_eq!(
        json_module_body(&json),
        "return {[\"name\"]=\"x\",[\"tags\"]={nil,false,},[\"n\"]=0.5,}"
    );
}

#[test]
fn parsed_document_has_the_shape_of_the_text() {
    match parse_json("[null, true, 7, \"s\", [], {\"k\": 1}]").unwrap() {
        Json::Array(items) => {
            assert_eq!(items.len(), 6);
            assert!(matches!(&items[0], Json::Null));
            assert!(matches!(&items[1], Json::Bool(true)));
            assert!(matches!(&items[2], Json::Number(text) if text == "7"));
            assert!(matches!(&items[3], Json::String(text) if text == "s"));
            assert!(matches!(&items[4], Json::Array(inner) if inner.is_empty()));
            assert!(matches!(&items[5], Json::Object(fields)
                if fields.len() == 1 && fields[0].0 == "k"));
        }
        _ => panic!("not an array"),
    }
}

#[test]
fn text_that_is_no_json_is_an_error() {
    assert!(parse_json("{").is_err());
    assert!(parse_json("").is_err());
    assert!(parse_json("[1,]").is_err());
    assert!(!parse_json("nil").unwrap_err().is_empty());
}

#[test]
fn strings_are_escaped_for_lua() {
    assert_eq!(lua("\"say \\\"hi\\\"\""), "\"say \\\"hi\\\"\"");
    assert_eq!(lua("\"a\\\\b\""), "\"a\\\\b\"");
    assert_eq!(lua("\"one\\ntwo\\r\""), "\"one\\ntwo\\r\"");
    assert_eq!(lua("\"tab\\there\""), "\"tab\\009here\"");
    assert_eq!(lua("\"\\u0000\\u001f\\u007f\""), "\"\\000\\031\\127\"");
    assert_eq!(lua("\"caf\\u00e9 \\u2192\""), "\"café →\"");
    assert_eq!(json_to_lua(&Json::String(String::from("\""))), "\"\\\"\"");
    assert_eq!(luajoin::json::escape_lua("plain"), "plain");
    assert_eq!(luajoin::json::escape_lua(""), "");
}

#[test]
fn keys_are_escaped_for_lua() {
    assert_eq!(lua("{\"a\\\"b\":1}"), "{[\"a\\\"b\"]=1,}");
    assert_eq!(lua("{\"line\\nbreak\":null}"), "{[\"line\\nbreak\"]=nil,}");
}

#[test]
fn embedded_document_is_lua() {
    let body = json_module_body(
        &parse_json("{\"q\":\"\\\"\",\"b\":\"\\\\\",\"n\":\"x\\ny\",\"list\":[\"\\u0001\"]}").unwrap(),
    );
    assert!(!body.contains('\n'));
    assert!(luajoin::rewrite::rewrite_source(&body).is_ok());
}
