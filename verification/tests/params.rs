use wilayah_worker::params::{clamp_usize, lookup_pair, parse_usize_param, query_param};
use wilayah_worker::text::{append_decimal, parse_usize};
use worker::Url;

fn query_of(url: &Url) -> &str {
    url.query().unwrap_or("")
}

#[test]
fn test_query_param_parsing() {
    let url = Url::parse("https://example.com/api?lat=-6.175&lon=106.825&limit=10").unwrap();
    let q = query_of(&url);

    assert_eq!(query_param(q, "lat"), Some("-6.175".to_string()));
    assert_eq!(query_param(q, "lon"), Some("106.825".to_string()));
    assert_eq!(query_param(q, "limit"), Some("10".to_string()));
    assert_eq!(query_param(q, "missing"), None);
}

#[test]
fn test_parse_usize_param() {
    let url = Url::parse("https://example.com/api?limit=25").unwrap();
    let q = query_of(&url);

    assert_eq!(parse_usize_param(q, "limit", 10), 25);
    assert_eq!(parse_usize_param(q, "missing", 5), 5);
}

#[test]
fn test_parse_usize_param_invalid_uses_default() {
    let url = Url::parse("https://example.com/api?limit=not_a_number").unwrap();
    assert_eq!(parse_usize_param(query_of(&url), "limit", 10), 10);
}

#[test]
fn query_param_first_pair_wins() {
    assert_eq!(query_param("a=1&a=2", "a"), Some("1".to_string()));
    assert_eq!(query_param("b=1&a=2&a=3", "a"), Some("2".to_string()));
}

#[test]
fn query_param_decodes_values() {
    assert_eq!(query_param("q=hello+world", "q"), Some("hello world".to_string()));
    assert_eq!(query_param("q=a%20b%41", "q"), Some("a bA".to_string()));
    assert_eq!(query_param("na%6De=x", "name"), Some("x".to_string()));
}

#[test]
fn query_param_edge_shapes() {
    assert_eq!(query_param("", "q"), None);
    assert_eq!(query_param("&&q=x&", "q"), Some("x".to_string()));
    assert_eq!(query_param("q", "q"), Some("".to_string()));
    assert_eq!(query_param("q=a=b", "q"), Some("a=b".to_string()));
}

#[test]
fn lookup_pair_over_decoded_pairs() {
    let pairs = vec![
        ("x".to_string(), "1".to_string()),
        ("y".to_string(), "2".to_string()),
        ("x".to_string(), "3".to_string()),
    ];
    assert_eq!(lookup_pair(&pairs, "x"), Some("1".to_string()));
    assert_eq!(lookup_pair(&pairs, "y"), Some("2".to_string()));
    assert_eq!(lookup_pair(&pairs, "z"), None);
    assert_eq!(lookup_pair(&Vec::new(), "x"), None);
}

#[test]
fn parse_usize_like_std() {
    for text in ["0", "7", "+7", "007", "", "+", "-1", "-0", " 5", "5 ", "1_000", "12a", "٣", "18446744073709551615", "18446744073709551616", "99999999999999999999999"] {
        assert_eq!(parse_usize(text), text.parse::<usize>().ok(), "text {:?}", text);
    }
    assert_eq!(parse_usize("+42"), Some(42));
    assert_eq!(parse_usize("abc"), None);
}

#[test]
fn parse_usize_param_edges() {
    assert_eq!(parse_usize_param("limit=-3", "limit", 10), 10);
    assert_eq!(parse_usize_param("limit=%2B4", "limit", 10), 4);
    assert_eq!(parse_usize_param("limit=", "limit", 10), 10);
    assert_eq!(parse_usize_param("limit=0", "limit", 10), 0);
}

#[test]
fn clamp_like_std() {
    assert_eq!(clamp_usize(0, 1, 100), 1);
    assert_eq!(clamp_usize(50, 1, 100), 50);
    assert_eq!(clamp_usize(1000, 1, 100), 100);
    assert_eq!(clamp_usize(7, 7, 7), 7);
}

#[test]
fn decimal_digits() {
    for n in [0u64, 9, 10, 30, 3600, 1234567890, u64::MAX] {
        let mut s = "x=".to_string();
        append_decimal(&mut s, n);
        assert_eq!(s, format!("x={}", n));
    }
}
