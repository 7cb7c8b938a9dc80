use walker::method::str_eq;
use walker::params::ParamMap;
use walker::query::parse_query;
use walker::request::{split_target, ParsedRequest};
use walker::text::{bytes_eq, find_byte, split_pieces};
use walker::method::Methods;

fn pair_list(pairs: &[(&str, &str)]) -> ParamMap {
    let mut map = ParamMap::new();
    for (name, value) in pairs {
        map.push(name.as_bytes().to_vec(), value.as_bytes().to_vec());
    }
    map
}

#[test]
fn bytes_and_strings_compare_by_content() {
    assert!(bytes_eq(b"abc", b"abc"));
    assert!(!bytes_eq(b"abc", b"abd"));
    assert!(!bytes_eq(b"abc", b"ab"));
    assert!(bytes_eq(b"", b""));
    assert!(str_eq("route", "route"));
    assert!(!str_eq("route", "Route"));
}

#[test]
fn find_byte_gives_the_first_position_or_the_length() {
    assert_eq!(find_byte(b"a/b/c", 0, b'/'), 1);
    assert_eq!(find_byte(b"a/b/c", 2, b'/'), 3);
    assert_eq!(find_byte(b"a/b/c", 4, b'/'), 5);
    assert_eq!(find_byte(b"/x", 0, b'/'), 0);
    assert_eq!(find_byte(b"", 0, b'/'), 0);
}

#[test]
fn split_pieces_drops_empty_pieces() {
    assert_eq!(
        split_pieces(b"/a/bc//d/", b'/'),
        vec![b"a".to_vec(), b"bc".to_vec(), b"d".to_vec()]
    );
    assert_eq!(split_pieces(b"abc", b'/'), vec![b"abc".to_vec()]);
    assert_eq!(split_pieces(b"", b'/'), Vec::<Vec<u8>>::new());
    assert_eq!(split_pieces(b"///", b'/'), Vec::<Vec<u8>>::new());
}

#[test]
fn target_is_cut_at_the_first_question_mark() {
    assert_eq!(
        split_target(b"/search?q=rust&page=2"),
        (b"/search".to_vec(), Some(b"q=rust&page=2".to_vec()))
    );
    assert_eq!(split_target(b"/search"), (b"/search".to_vec(), None));
    assert_eq!(split_target(b"/search?"), (b"/search".to_vec(), Some(Vec::new())));
    assert_eq!(split_target(b"/a?b?c"), (b"/a".to_vec(), Some(b"b?c".to_vec())));
}

#[test]
fn query_pairs_are_read_in_order() {
    assert_eq!(parse_query(b"q=rust&page=2"), pair_list(&[("q", "rust"), ("page", "2")]));
    assert_eq!(parse_query(b""), pair_list(&[]));
    assert_eq!(parse_query(b"a=1&&b=2&"), pair_list(&[("a", "1"), ("b", "2")]));
    assert_eq!(parse_query(b"a=b=c"), pair_list(&[("a", "b=c")]));
    assert_eq!(parse_query(b"a="), pair_list(&[("a", "")]));
    assert_eq!(parse_query(b"=v"), pair_list(&[("", "v")]));
}

#[test]
fn query_piece_without_equals_is_left_out_whole() {
    assert_eq!(parse_query(b"flag&a=1"), pair_list(&[("a", "1")]));
    assert_eq!(parse_query(b"flag"), pair_list(&[]));
}

#[test]
fn param_map_finds_the_first_value_of_a_name() {
    let map = pair_list(&[("a", "1"), ("b", "2"), ("a", "3")]);
    assert_eq!(map.get(b"a"), Some(&b"1".to_vec()));
    assert_eq!(map.get(b"b"), Some(&b"2".to_vec()));
    assert_eq!(map.get(b"c"), None);
    assert_eq!(map.len(), 3);
    assert!(!map.is_empty());
    assert!(ParamMap::new().is_empty());
    assert_eq!(map.name_count(), 2);
    assert_eq!(ParamMap::new().name_count(), 0);
    assert_eq!(map.copy(), map);
}

#[test]
fn parsed_request_holds_path_and_query_apart() {
    let request = ParsedRequest::new(
        Methods::GET,
        b"/users/7?x=1",
        pair_list(&[("host", "example")]),
        pair_list(&[("id", "7")]),
    );
    assert_eq!(request.method, Methods::GET);
    assert_eq!(request.path, b"/users/7".to_vec());
    assert_eq!(request.query, Some(b"x=1".to_vec()));
    assert_eq!(request.headers, pair_list(&[("host", "example")]));
    assert_eq!(request.url_params, pair_list(&[("id", "7")]));
}
