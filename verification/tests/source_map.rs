use luajoin::source_map::{map_to_source, SourceMap};

fn sample() -> SourceMap {
    SourceMap {
        files: vec![String::from("[BUNDLER]"), String::from("util"), String::from("main")],
        sources: vec![50, 80, 130],
    }
}

#[test]
fn line_in_the_last_module() {
    assert_eq!(map_to_source(100, &sample()), Some((String::from("main"), 31)));
}

#[test]
fn line_in_the_header() {
    assert_eq!(map_to_source(1, &sample()), Some((String::from("[BUNDLER]"), 50)));
    assert_eq!(map_to_source(49, &sample()), Some((String::from("[BUNDLER]"), 2)));
}

#[test]
fn line_on_a_boundary_belongs_to_the_next_module() {
    assert_eq!(map_to_source(50, &sample()), Some((String::from("util"), 31)));
    assert_eq!(map_to_source(79, &sample()), Some((String::from("util"), 2)));
    assert_eq!(map_to_source(80, &sample()), Some((String::from("main"), 51)));
    assert_eq!(map_to_source(129, &sample()), Some((String::from("main"), 2)));
}

#[test]
fn line_beyond_the_bundle() {
    assert_eq!(map_to_source(130, &sample()), None);
    assert_eq!(map_to_source(usize::MAX, &sample()), None);
}

#[test]
fn empty_map_finds_nothing() {
    let map = SourceMap { files: Vec::new(), sources: Vec::new() };
    assert_eq!(map_to_source(0, &map), None);
}

#[test]
fn entry_without_a_name_finds_nothing() {
    let map = SourceMap { files: vec![String::from("[BUNDLER]")], sources: vec![10, 20] };
    assert_eq!(map_to_source(5, &map), Some((String::from("[BUNDLER]"), 6)));
    assert_eq!(map_to_source(15, &map), None);
}

#[test]
fn first_greater_entry_wins_in_an_unsorted_map() {
    let map = SourceMap {
        files: vec![String::from("a"), String::from("b"), String::from("c")],
        sources: vec![5, 3, 9],
    };
    assert_eq!(map_to_source(4, &map), Some((String::from("a"), 2)));
    assert_eq!(map_to_source(6, &map), Some((String::from("c"), 4)));
}

#[test]
fn count_that_does_not_fit_is_not_reported() {
    let map = SourceMap { files: vec![String::from("a")], sources: vec![usize::MAX] };
    assert_eq!(map_to_source(0, &map), None);
    assert_eq!(map_to_source(1, &map), Some((String::from("a"), usize::MAX)));
}
