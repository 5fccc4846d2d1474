use request_dispatch::absolute::{parse_url_parts, split_url, UrlParts};
use request_dispatch::bytes::{bytes_equal, copy_range, find_byte};
use request_dispatch::handler::{make_response_filters, Next};
use request_dispatch::header::{default_headers, HeaderValue, Headers, HttpDate};
use request_dispatch::instance::{error_response, parse_target, WriteMethod};
use request_dispatch::context::RequestTarget;
use request_dispatch::params::Parameters;
use request_dispatch::percent::decode;
use request_dispatch::router::select_handler;
use request_dispatch::status::StatusCode;
use request_dispatch::threads::{default_thread_count, worker_threads};
use request_dispatch::uri::{
    decode_fragment, normalize_path, parse_asterisk, parse_fragment, parse_parameters, parse_path,
    parse_path_bytes, Uri,
};
use std::sync::Arc;
use url::Url;

fn bytes(text: &str) -> Vec<u8> {
    text.to_owned().into_bytes()
}

#[test]
fn decode_replaces_escape_sequences() {
    assert_eq!(decode("%41%62c".as_bytes()), bytes("Abc"));
    assert_eq!(decode("a%20b%2Fc%2fd".as_bytes()), bytes("a b/c/d"));
    assert_eq!(decode("%00%ff%FF".as_bytes()), vec![0u8, 255u8, 255u8]);
    assert_eq!(decode("".as_bytes()), bytes(""));
}

#[test]
fn decode_keeps_what_is_no_escape_sequence() {
    assert_eq!(decode("%".as_bytes()), bytes("%"));
    assert_eq!(decode("%4".as_bytes()), bytes("%4"));
    assert_eq!(decode("100%".as_bytes()), bytes("100%"));
    assert_eq!(decode("%zz%4g%g4".as_bytes()), bytes("%zz%4g%g4"));
    assert_eq!(decode("%%41".as_bytes()), bytes("%A"));
    assert_eq!(decode("%2541".as_bytes()), bytes("%41"));
}

#[test]
fn decode_twice_is_decode_once_without_escape_sequences() {
    for text in ["", "/path/to/something", "100% sure", "a%zzb", "%", "with=this&and=that"] {
        let once = decode(text.as_bytes());
        assert_eq!(once, bytes(text));
        assert_eq!(decode(&once), once);
    }
}

#[test]
fn find_byte_gives_the_first_occurrence() {
    assert_eq!(find_byte("a?b?c".as_bytes(), 0x3f), Some(1));
    assert_eq!(find_byte("?".as_bytes(), 0x3f), Some(0));
    assert_eq!(find_byte("abc".as_bytes(), 0x3f), None);
    assert_eq!(find_byte("".as_bytes(), 0x3f), None);
}

#[test]
fn byte_helpers_compare_and_copy() {
    assert!(bytes_equal("abc".as_bytes(), "abc".as_bytes()));
    assert!(!bytes_equal("abc".as_bytes(), "abd".as_bytes()));
    assert!(!bytes_equal("abc".as_bytes(), "ab".as_bytes()));
    assert!(bytes_equal("".as_bytes(), "".as_bytes()));
    assert_eq!(copy_range("abcdef".as_bytes(), 2, 4), bytes("cd"));
    assert_eq!(copy_range("abcdef".as_bytes(), 3, 3), bytes(""));
}

#[test]
fn fragment_is_split_at_the_first_number_sign() {
    assert_eq!(parse_fragment("/a#b#c".as_bytes()), ("/a".as_bytes(), Some("b#c".as_bytes())));
    assert_eq!(parse_fragment("/a#".as_bytes()), ("/a".as_bytes(), Some("".as_bytes())));
    assert_eq!(parse_fragment("#".as_bytes()), ("".as_bytes(), Some("".as_bytes())));
    assert_eq!(parse_fragment("/a".as_bytes()), ("/a".as_bytes(), None));
    assert_eq!(parse_fragment("".as_bytes()), ("".as_bytes(), None));
}

#[test]
fn fragment_is_decoded_where_there_is_one() {
    assert_eq!(decode_fragment(Some("l%6fl".as_bytes())), Some(bytes("lol")));
    assert_eq!(decode_fragment(Some("".as_bytes())), Some(bytes("")));
    assert_eq!(decode_fragment(None), None);
}

#[test]
fn empty_path_becomes_a_slash() {
    assert_eq!(normalize_path("".as_bytes()), bytes("/"));
    assert_eq!(normalize_path("/a%20b".as_bytes()), bytes("/a b"));
    assert_eq!(normalize_path("a".as_bytes()), bytes("a"));
}

#[test]
fn query_is_read_piece_by_piece() {
    let query = parse_parameters("with=this&and=that".as_bytes());
    assert_eq!(query.len(), 2);
    assert_eq!(query.entry(0), (&bytes("with"), &bytes("this")));
    assert_eq!(query.entry(1), (&bytes("and"), &bytes("that")));
}

#[test]
fn query_sides_are_decoded_one_by_one() {
    let query = parse_parameters("a%3Db=c%26d&e%20f=%41".as_bytes());
    assert_eq!(query.len(), 2);
    assert_eq!(query.get_raw("a=b".as_bytes()), Some(&bytes("c&d")));
    assert_eq!(query.get_raw("e f".as_bytes()), Some(&bytes("A")));
}

#[test]
fn query_piece_without_equals_sign_has_an_empty_value() {
    let query = parse_parameters("flag&other=&=bare".as_bytes());
    assert_eq!(query.len(), 3);
    assert_eq!(query.get_raw("flag".as_bytes()), Some(&bytes("")));
    assert_eq!(query.get_raw("other".as_bytes()), Some(&bytes("")));
    assert_eq!(query.get_raw("".as_bytes()), Some(&bytes("bare")));
}

#[test]
fn query_piece_is_split_at_its_first_equals_sign() {
    let query = parse_parameters("a=1=2".as_bytes());
    assert_eq!(query.len(), 1);
    assert_eq!(query.get_raw("a".as_bytes()), Some(&bytes("1=2")));
}

#[test]
fn empty_query_pieces_are_passed_over() {
    assert_eq!(parse_parameters("".as_bytes()).len(), 0);
    assert_eq!(parse_parameters("&&".as_bytes()).len(), 0);
    let query = parse_parameters("&a=1&&b=2&".as_bytes());
    assert_eq!(query.len(), 2);
    assert_eq!(query.get_raw("a".as_bytes()), Some(&bytes("1")));
    assert_eq!(query.get_raw("b".as_bytes()), Some(&bytes("2")));
}

#[test]
fn later_query_value_replaces_the_earlier_one() {
    let query = parse_parameters("a=1&b=2&a=3".as_bytes());
    assert_eq!(query.len(), 2);
    assert_eq!(query.entry(0), (&bytes("a"), &bytes("3")));
    assert_eq!(query.entry(1), (&bytes("b"), &bytes("2")));
}

#[test]
fn parameters_keep_order_and_the_last_value() {
    let mut parameters = Parameters::new();
    assert!(parameters.is_empty());
    parameters.insert(bytes("x"), bytes("1"));
    parameters.insert(bytes("y"), bytes("2"));
    parameters.insert(bytes("x"), bytes("3"));
    assert_eq!(parameters.len(), 2);
    assert!(!parameters.is_empty());
    assert!(parameters.contains_key("y".as_bytes()));
    assert!(!parameters.contains_key("z".as_bytes()));
    assert_eq!(parameters.get_raw("z".as_bytes()), None);
    assert_eq!(parameters.entry(0), (&bytes("x"), &bytes("3")));
    assert_eq!(parameters.entry(1), (&bytes("y"), &bytes("2")));
    let collected = Parameters::from_pairs(&[(bytes("k"), bytes("1")), (bytes("l"), bytes("2")), (bytes("k"), bytes("9"))]);
    assert_eq!(collected.len(), 2);
    assert_eq!(collected.get_raw("k".as_bytes()), Some(&bytes("9")));
    assert_eq!(collected.entry(1), (&bytes("l"), &bytes("2")));
}

#[test]
fn path_with_escapes_is_decoded_part_by_part() {
    let parsed = parse_path("/a%20b%3Fc?k%23=v%26#f%2Fg");
    assert_eq!(parsed.uri.as_path(), Some(&bytes("/a b?c")));
    assert_eq!(parsed.query.get_raw("k#".as_bytes()), Some(&bytes("v&")));
    assert_eq!(parsed.fragment, Some(bytes("f/g")));
    assert!(parsed.host.is_none());
}

#[test]
fn number_sign_before_question_mark_stays_in_the_path() {
    let parsed = parse_path_bytes("/a#b?c=d".as_bytes());
    assert_eq!(parsed.uri.as_path(), Some(&bytes("/a#b")));
    assert_eq!(parsed.query.get_raw("c".as_bytes()), Some(&bytes("d")));
    assert_eq!(parsed.fragment, None);
}

#[test]
fn empty_target_is_the_root() {
    let parsed = parse_path("");
    assert_eq!(parsed.uri.as_path(), Some(&bytes("/")));
    assert_eq!(parsed.query.len(), 0);
    assert_eq!(parsed.fragment, None);
}

#[test]
fn absent_and_empty_fragment_differ() {
    assert_eq!(parse_path("/a").fragment, None);
    assert_eq!(parse_path("/a#").fragment, Some(bytes("")));
    assert_eq!(parse_path("/a?#").fragment, Some(bytes("")));
    assert_eq!(parse_path("/a?").fragment, None);
}

#[test]
fn wildcard_has_no_path() {
    let parsed = parse_asterisk();
    assert!(parsed.uri.is_asterisk());
    assert_eq!(parsed.uri.as_path(), None);
    assert_eq!(parsed.query.len(), 0);
    assert_eq!(parsed.fragment, None);
    assert!(!Uri::Path(bytes("/")).is_asterisk());
}

#[test]
fn url_parts_are_joined_and_decoded() {
    let parts = UrlParts {
        host: Some(("example.com".to_owned(), Some(8080))),
        path: Some(vec![bytes("a%20b"), bytes(""), bytes("c")]),
        query: Some(vec![(bytes("k"), bytes("1")), (bytes("k"), bytes("2"))]),
        fragment: Some(bytes("l%6fl")),
    };
    let parsed = parse_url_parts(&parts);
    assert_eq!(parsed.host, Some(("example.com".to_owned(), Some(8080))));
    assert_eq!(parsed.uri.as_path(), Some(&bytes("/a b//c")));
    assert_eq!(parsed.query.len(), 1);
    assert_eq!(parsed.query.get_raw("k".as_bytes()), Some(&bytes("2")));
    assert_eq!(parsed.fragment, Some(bytes("lol")));
}

#[test]
fn url_parts_without_path_give_the_root() {
    let parts = UrlParts { host: None, path: None, query: None, fragment: None };
    let parsed = parse_url_parts(&parts);
    assert_eq!(parsed.uri.as_path(), Some(&bytes("/")));
    assert_eq!(parsed.query.len(), 0);
    assert_eq!(parsed.fragment, None);
    assert_eq!(parsed.host, None);
    let empty = UrlParts { host: None, path: Some(vec![]), query: Some(vec![]), fragment: Some(vec![]) };
    let parsed = parse_url_parts(&empty);
    assert_eq!(parsed.uri.as_path(), Some(&bytes("/")));
    assert_eq!(parsed.fragment, Some(bytes("")));
}

#[test]
fn url_is_read_into_its_parts() {
    let url = Url::parse("http://example.com:8080/a%20b/c?k=v+w&x=%41#f%20g").unwrap();
    let parts = split_url(&url);
    assert_eq!(parts.host, Some(("example.com".to_owned(), Some(8080))));
    assert_eq!(parts.path, Some(vec![bytes("a%20b"), bytes("c")]));
    assert_eq!(parts.query, Some(vec![(bytes("k"), bytes("v w")), (bytes("x"), bytes("A"))]));
    assert_eq!(parts.fragment, Some(bytes("f%20g")));
    let bare = split_url(&Url::parse("http://example.com").unwrap());
    assert_eq!(bare.query, None);
    assert_eq!(bare.fragment, None);
    let mail = split_url(&Url::parse("mailto:someone@example.com").unwrap());
    assert_eq!(mail.host, None);
    assert_eq!(mail.path, None);
}

#[test]
fn targets_are_told_apart() {
    let origin = parse_target(&RequestTarget::AbsolutePath("/a?b=c".to_owned())).unwrap();
    assert_eq!(origin.uri.as_path(), Some(&bytes("/a")));
    assert_eq!(origin.query.get_raw("b".as_bytes()), Some(&bytes("c")));
    let url = Url::parse("http://example.com/a%2Fb?b=c").unwrap();
    let absolute = parse_target(&RequestTarget::AbsoluteUri(split_url(&url))).unwrap();
    assert_eq!(absolute.uri.as_path(), Some(&bytes("/a/b")));
    assert_eq!(absolute.host, Some(("example.com".to_owned(), None)));
    let star = parse_target(&RequestTarget::Star).unwrap();
    assert!(star.uri.is_asterisk());
    assert!(parse_target(&RequestTarget::Authority("example.com:80".to_owned())).is_none());
}

#[test]
fn headers_replace_a_field_where_it_stands() {
    let mut headers = Headers::new();
    assert_eq!(headers.len(), 0);
    headers.set("A".to_owned(), HeaderValue::Text("1".to_owned()));
    headers.set("B".to_owned(), HeaderValue::Text("2".to_owned()));
    headers.set("A".to_owned(), HeaderValue::Text("3".to_owned()));
    assert_eq!(headers.len(), 2);
    assert_eq!(headers.field(0).0, "A");
    assert!(matches!(headers.get("A"), Some(HeaderValue::Text(value)) if value == "3"));
    assert!(matches!(headers.field(1), (name, HeaderValue::Text(value)) if name == "B" && value == "2"));
    assert!(headers.get("a").is_none());
}

#[test]
fn default_headers_are_date_content_type_and_server() {
    let date = HttpDate { second: 37, minute: 49, hour: 8, day: 6, month: 10, year: 94, weekday: 0 };
    let headers = default_headers(date, &"text/html".to_owned(), &"server".to_owned());
    assert_eq!(headers.len(), 3);
    assert!(matches!(headers.field(0), (name, HeaderValue::Date(value)) if name == "Date" && *value == date));
    assert!(matches!(headers.field(1), (name, HeaderValue::Text(value)) if name == "Content-Type" && value == "text/html"));
    assert!(matches!(headers.field(2), (name, HeaderValue::Text(value)) if name == "Server" && value == "server"));
}

#[test]
fn error_response_holds_its_head_and_writes_at_once() {
    let mut headers = Headers::new();
    headers.set("A".to_owned(), HeaderValue::Text("1".to_owned()));
    let (method, next): (WriteMethod<u8>, Next) = error_response(StatusCode { code: 418 }, headers);
    assert_eq!(next, Next::Write);
    match method {
        WriteMethod::Error(Some(head)) => {
            assert_eq!(head.status, StatusCode { code: 418 });
            assert_eq!(head.headers.len(), 1);
        },
        _ => panic!("an error response holds a head"),
    }
}

#[test]
fn status_codes_have_their_numbers() {
    assert_eq!(StatusCode::ok(), StatusCode { code: 200 });
    assert_eq!(StatusCode::bad_request(), StatusCode { code: 400 });
    assert_eq!(StatusCode::not_found(), StatusCode { code: 404 });
}

#[test]
fn found_handler_goes_before_the_fallback() {
    let found = 1u8;
    assert_eq!(select_handler(Some(&found), &Some(2u8)), Some(&1u8));
    assert_eq!(select_handler(Some(&found), &None), Some(&1u8));
    assert_eq!(select_handler(None, &Some(2u8)), Some(&2u8));
    assert_eq!(select_handler::<u8>(None, &None), None);
}

#[test]
fn response_filters_start_with_an_empty_storage() {
    let made = make_response_filters(Arc::new(vec![1u8]), Arc::new(5u32));
    assert_eq!(*made.filters, vec![1u8]);
    assert_eq!(*made.global, 5);
    assert!(made.storage.items.is_empty());
}

#[test]
fn default_thread_count_is_five_for_four() {
    assert_eq!(default_thread_count(1), 1);
    assert_eq!(default_thread_count(2), 2);
    assert_eq!(default_thread_count(3), 3);
    assert_eq!(default_thread_count(4), 5);
    assert_eq!(default_thread_count(7), 8);
    assert_eq!(default_thread_count(8), 10);
    assert_eq!(default_thread_count(0), 0);
    assert_eq!(default_thread_count(usize::MAX), usize::MAX);
    assert_eq!(default_thread_count(usize::MAX / 5 * 4), usize::MAX / 5 * 5);
}

#[test]
fn configured_thread_count_is_kept() {
    assert_eq!(worker_threads(Some(12)), 12);
    assert_eq!(worker_threads(Some(0)), 0);
    assert_eq!(worker_threads(None), (num_cpus::get() * 5) / 4);
}
