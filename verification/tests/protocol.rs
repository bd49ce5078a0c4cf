use luajoin::config::Config;
use luajoin::decode::{config_of, error_log_of, parse_count, source_map_of};
use luajoin::encode::{quote, source_map_text, write_config, write_counts, write_strings};
use luajoin::json::parse_json;
use luajoin::protocol::{
    classify, decimal_string, exec_message, message_positions, position, receive, stack_entries,
    ClientMessage, ErrorLog,
};
use luajoin::source_map::SourceMap;

fn sample() -> SourceMap {
    SourceMap {
        files: vec![String::from("[BUNDLER]"), String::from("util"), String::from("main")],
        sources: vec![50, 80, 130],
    }
}

#[test]
fn handshake_frame() {
    let message = receive("[\"connected\", \"studio\"]").unwrap();
    assert!(matches!(message, ClientMessage::Connected(name) if name == "studio"));
}

#[test]
fn error_frame_carries_its_report_as_text() {
    let message = receive("[\"error\", \"{\\\"message_lines\\\":[100]}\"]").unwrap();
    assert!(matches!(message, ClientMessage::Error(text) if text == "{\"message_lines\":[100]}"));
}

#[test]
fn other_frames_are_unknown() {
    assert!(matches!(receive("[\"ping\", \"x\"]").unwrap(), ClientMessage::Unknown));
    assert!(matches!(receive("[\"connected\"]").unwrap(), ClientMessage::Unknown));
    assert!(matches!(receive("[]").unwrap(), ClientMessage::Unknown));
    assert!(matches!(classify(&vec![String::from("error")]), ClientMessage::Unknown));
    assert!(matches!(
        classify(&vec![String::from("connected"), String::from("a"), String::from("b")]),
        ClientMessage::Connected(name) if name == "a"
    ));
}

#[test]
fn text_that_is_no_frame_is_an_error() {
    assert!(receive("connected").is_err());
    assert!(receive("{\"connected\": \"x\"}").is_err());
    assert!(receive("[\"connected\", 1]").is_err());
    assert!(receive("[\"connected\", \"x\"").is_err());
}

#[test]
fn exec_frame() {
    assert_eq!(exec_message("print(1)"), "[\"exec\",\"print(1)\"]");
    assert_eq!(
        exec_message("print(\"a\")\n-- \\ done"),
        "[\"exec\",\"print(\\\"a\\\")\\n-- \\\\ done\"]"
    );
    let frame = exec_message("local s = \"x\"\n");
    assert!(matches!(receive(&frame).unwrap(), ClientMessage::Unknown));
    let back = parse_json(&frame).unwrap();
    assert_eq!(luajoin::decode::get_texts(&back).unwrap(), vec!["exec", "local s = \"x\"\n"]);
}

#[test]
fn numbers_in_decimal() {
    assert_eq!(decimal_string(0), "0");
    assert_eq!(decimal_string(7), "7");
    assert_eq!(decimal_string(10), "10");
    assert_eq!(decimal_string(31), "31");
    assert_eq!(decimal_string(1234567890), "1234567890");
    assert_eq!(decimal_string(usize::MAX), usize::MAX.to_string());
}

#[test]
fn digits_are_read_back() {
    assert_eq!(parse_count("0"), Some(0));
    assert_eq!(parse_count("007"), Some(7));
    assert_eq!(parse_count("1234567890"), Some(1234567890));
    assert_eq!(parse_count(&usize::MAX.to_string()), Some(usize::MAX));
    assert_eq!(parse_count(&decimal_string(4096)), Some(4096));
    assert_eq!(parse_count(""), None);
    assert_eq!(parse_count("-1"), None);
    assert_eq!(parse_count("1.0"), None);
    assert_eq!(parse_count("12a"), None);
    assert_eq!(parse_count("99999999999999999999999999"), None);
    assert_eq!(parse_count("18446744073709551616"), None);
}

#[test]
fn places_of_a_report() {
    let log = ErrorLog {
        message_lines: vec![100, 60],
        stack_trace_lines: vec![100, 10, 500],
        message_content: String::from("attempt to index nil"),
    };
    assert_eq!(position(100, &sample()), "main:31");
    assert_eq!(position(130, &sample()), "Unknown:0");
    assert_eq!(message_positions(&log, &sample()), vec!["main:31", "util:21"]);
    assert_eq!(
        stack_entries(&log, &sample()),
        vec!["\tFile 'main:31'", "\tFile '[BUNDLER]:41'", "\tFile 'Unknown:0'"]
    );
}

#[test]
fn report_is_read_from_its_json() {
    let json = parse_json(
        "{\"message_lines\":[100,60],\"stack_trace_lines\":[],\"message_content\":\"boom\",\"extra\":1}",
    )
    .unwrap();
    let log = error_log_of(&json).unwrap();
    assert_eq!(log.message_lines, vec![100, 60]);
    assert!(log.stack_trace_lines.is_empty());
    assert_eq!(log.message_content, "boom");
}

#[test]
fn report_of_another_shape_is_refused() {
    let missing = parse_json("{\"message_lines\":[1],\"message_content\":\"x\"}").unwrap();
    assert!(error_log_of(&missing).is_none());
    let negative =
        parse_json("{\"message_lines\":[-1],\"stack_trace_lines\":[],\"message_content\":\"x\"}")
            .unwrap();
    assert!(error_log_of(&negative).is_none());
    let float =
        parse_json("{\"message_lines\":[1.5],\"stack_trace_lines\":[],\"message_content\":\"x\"}")
            .unwrap();
    assert!(error_log_of(&float).is_none());
    let array = parse_json("[1,2]").unwrap();
    assert!(error_log_of(&array).is_none());
}

#[test]
fn line_map_round_trip() {
    let text = source_map_text(&sample());
    assert_eq!(text, "{\"files\":[\"[BUNDLER]\",\"util\",\"main\"],\"sources\":[50,80,130]}");
    let back = source_map_of(&parse_json(&text).unwrap()).unwrap();
    assert_eq!(back.files, sample().files);
    assert_eq!(back.sources, sample().sources);
}

#[test]
fn empty_line_map() {
    let map = SourceMap { files: Vec::new(), sources: Vec::new() };
    assert_eq!(source_map_text(&map), "{\"files\":[],\"sources\":[]}");
    assert_eq!(write_counts(&vec![7]), "7");
    assert_eq!(write_strings(&vec![String::from("a\"b")]), "[\"a\\\"b\"]");
    assert_eq!(quote("tab\there"), "\"tab\\there\"");
}

#[test]
fn line_map_of_another_shape_is_refused() {
    assert!(source_map_of(&parse_json("{\"files\":[\"a\"]}").unwrap()).is_none());
    assert!(source_map_of(&parse_json("{\"files\":[1],\"sources\":[1]}").unwrap()).is_none());
    assert!(source_map_of(&parse_json("{\"files\":\"a\",\"sources\":[1]}").unwrap()).is_none());
    assert!(source_map_of(&parse_json("{\"files\":[],\"sources\":[\"1\"]}").unwrap()).is_none());
}

#[test]
fn configuration_round_trip() {
    let config = Config::new("src", "out", "main");
    let text = write_config(&config);
    assert_eq!(
        text,
        "{\n  \"entry_file\": \"main\",\n  \"src_dir\": \"src\",\n  \"out_dir\": \"out\"\n}"
    );
    let back = config_of(&parse_json(&text).unwrap()).unwrap();
    assert_eq!(back.src_dir, "src");
    assert_eq!(back.out_dir, "out");
    assert_eq!(back.entry_file, "main");
}

#[test]
fn configuration_of_another_shape_is_refused() {
    assert!(config_of(&parse_json("{\"src_dir\":\"src\",\"out_dir\":\"out\"}").unwrap()).is_none());
    assert!(config_of(
        &parse_json("{\"src_dir\":\"src\",\"out_dir\":\"out\",\"entry_file\":3}").unwrap()
    )
    .is_none());
    assert!(config_of(&parse_json("null").unwrap()).is_none());
}

#[test]
fn paths_of_a_project() {
    let config = Config::new("src", "out", "main");
    assert_eq!(config.bundle_path("dev"), "out/bundle.dev.lua");
    assert_eq!(config.bundle_path("build"), "out/bundle.build.lua");
    assert_eq!(config.map_path("dev"), "out/bundle.dev.lua.map");
    assert_eq!(config.dev_path(), "src/.dev.lua");
    assert_eq!(config.entry_path(), "src/main.lua");
    assert_eq!(config.gitignore(), "/out\n/src/.dev.lua");
}
