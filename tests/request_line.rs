use http_server::method::Method;
use http_server::query_string::{QueryString, Value};
use http_server::request::{get_next_word, ParseError, Request};

#[test]
fn plain_get_has_no_query_string() {
    let buf = b"GET /index.html HTTP/1.1\r\nHost: x\r\n\r\n";
    let req = Request::parse(buf).unwrap();
    assert_eq!(req.path(), "/index.html");
    assert_eq!(*req.method(), Method::GET);
    assert!(req.query_string().is_none());
}

#[test]
fn every_verb_parses_in_a_request_line() {
    let verbs = [
        ("GET", Method::GET),
        ("DELETE", Method::DELETE),
        ("POST", Method::POST),
        ("PUT", Method::PUT),
        ("HEAD", Method::HEAD),
        ("CONNECT", Method::CONNECT),
        ("OPTIONS", Method::OPTIONS),
        ("TRACE", Method::TRACE),
        ("PATCH", Method::PATCH),
    ];
    for (name, m) in verbs {
        let line = format!("{} /a/b HTTP/1.1\r\n", name);
        let req = Request::parse(line.as_bytes()).unwrap();
        assert_eq!(*req.method(), m);
        assert_eq!(req.path(), "/a/b");
        assert!(req.query_string().is_none());
    }
}

#[test]
fn search_query_is_split_from_path() {
    let buf = b"GET /search?name=abc&sort=1 HTTP/1.1\r\n";
    let req = Request::parse(buf).unwrap();
    assert_eq!(req.path(), "/search");
    assert_eq!(*req.method(), Method::GET);
    let q = req.query_string().unwrap();
    assert_eq!(q.len(), 2);
    assert_eq!(q.get("name"), Some(Value::Single("abc")));
    assert_eq!(q.get("sort"), Some(Value::Single("1")));
    assert_eq!(q.get("other"), None);
}

#[test]
fn repeated_key_keeps_values_in_order() {
    let buf = b"GET /x?a=1&a=2 HTTP/1.1\r\n";
    let req = Request::parse(buf).unwrap();
    assert_eq!(req.path(), "/x");
    let q = req.query_string().unwrap();
    assert_eq!(q.len(), 1);
    assert_eq!(q.get("a"), Some(Value::Multiple(vec!["1", "2"])));
}

#[test]
fn http_1_0_is_unsupported() {
    let r = Request::parse(b"GET /index.html HTTP/1.0\r\n");
    assert_eq!(r.unwrap_err(), ParseError::Protocol);
    let r = Request::parse(b"FOO /index.html HTTP/2\r\n");
    assert_eq!(r.unwrap_err(), ParseError::Protocol);
}

#[test]
fn unknown_method_is_refused() {
    let r = Request::parse(b"FOO /index.html HTTP/1.1\r\n");
    assert_eq!(r.unwrap_err(), ParseError::Method);
    let r = Request::parse(b"get /index.html HTTP/1.1\r\n");
    assert_eq!(r.unwrap_err(), ParseError::Method);
}

#[test]
fn missing_protocol_is_malformed() {
    let r = Request::parse(b"GET /index.html");
    assert_eq!(r.unwrap_err(), ParseError::Request);
    let r = Request::parse(b"GET /index.html ");
    assert_eq!(r.unwrap_err(), ParseError::Request);
    let r = Request::parse(b"GET /index.html HTTP/1.1");
    assert_eq!(r.unwrap_err(), ParseError::Request);
    let r = Request::parse(b"");
    assert_eq!(r.unwrap_err(), ParseError::Request);
}

#[test]
fn invalid_utf8_is_an_encoding_error() {
    let r = Request::parse(b"GET /\xff\xfe HTTP/1.1\r\n");
    assert_eq!(r.unwrap_err(), ParseError::Encoding);
    let r = Request::parse(b"\xc3");
    assert_eq!(r.unwrap_err(), ParseError::Encoding);
}

#[test]
fn parsing_twice_gives_the_same_outcome() {
    let buf = b"POST /x?k=v&k=w&z HTTP/1.1\r\nrest";
    let a = Request::parse(buf).unwrap();
    let b = Request::parse(buf).unwrap();
    assert_eq!(a.path(), b.path());
    assert_eq!(a.method(), b.method());
    let (qa, qb) = (a.query_string().unwrap(), b.query_string().unwrap());
    assert_eq!(qa.get("k"), qb.get("k"));
    assert_eq!(qa.get("z"), qb.get("z"));
    let bad = b"GET / HTTP/1.0\r\n";
    assert_eq!(Request::parse(bad).unwrap_err(), Request::parse(bad).unwrap_err());
}

#[test]
fn words_may_end_with_carriage_return() {
    let req = Request::parse(b"PUT\r/p\rHTTP/1.1\rtail").unwrap();
    assert_eq!(*req.method(), Method::PUT);
    assert_eq!(req.path(), "/p");
}

#[test]
fn non_ascii_path_is_kept_whole() {
    let req = Request::parse("GET /caf\u{e9}?q=\u{e9}t\u{e9} HTTP/1.1\r\n".as_bytes()).unwrap();
    assert_eq!(req.path(), "/caf\u{e9}");
    let q = req.query_string().unwrap();
    assert_eq!(q.get("q"), Some(Value::Single("\u{e9}t\u{e9}")));
}

#[test]
fn empty_query_after_question_mark() {
    let req = Request::parse(b"GET /p? HTTP/1.1\r\n").unwrap();
    assert_eq!(req.path(), "/p");
    let q = req.query_string().unwrap();
    assert_eq!(q.len(), 1);
    assert_eq!(q.get(""), Some(Value::Single("")));
}

#[test]
fn query_string_parse_is_total() {
    let q = QueryString::parse("");
    assert_eq!(q.len(), 1);
    assert_eq!(q.get(""), Some(Value::Single("")));

    let q = QueryString::parse("&");
    assert_eq!(q.len(), 1);
    assert_eq!(q.get(""), Some(Value::Multiple(vec!["", ""])));

    let q = QueryString::parse("a&b");
    assert_eq!(q.len(), 2);
    assert_eq!(q.get("a"), Some(Value::Single("")));
    assert_eq!(q.get("b"), Some(Value::Single("")));

    let q = QueryString::parse("a=1=2&b=&=c");
    assert_eq!(q.len(), 3);
    assert_eq!(q.get("a"), Some(Value::Single("1=2")));
    assert_eq!(q.get("b"), Some(Value::Single("")));
    assert_eq!(q.get(""), Some(Value::Single("c")));
}

#[test]
fn query_values_are_verbatim() {
    let q = QueryString::parse("x=%20a+b&y= c ");
    assert_eq!(q.get("x"), Some(Value::Single("%20a+b")));
    assert_eq!(q.get("y"), Some(Value::Single(" c ")));
}

#[test]
fn three_values_for_one_key() {
    let q = QueryString::parse("k=1&j=0&k=2&k=3");
    assert_eq!(q.len(), 2);
    assert_eq!(q.get("k"), Some(Value::Multiple(vec!["1", "2", "3"])));
    assert_eq!(q.get("j"), Some(Value::Single("0")));
}

#[test]
fn next_word_splits_at_first_delimiter() {
    assert_eq!(get_next_word("GET /x HTTP/1.1"), Some(("GET", "/x HTTP/1.1")));
    assert_eq!(get_next_word("a\rb c"), Some(("a", "b c")));
    assert_eq!(get_next_word(" x"), Some(("", "x")));
    assert_eq!(get_next_word("nodelim"), None);
    assert_eq!(get_next_word(""), None);
}

#[test]
fn method_tokens_are_case_sensitive() {
    assert_eq!(Method::parse("PATCH"), Ok(Method::PATCH));
    assert_eq!(Method::parse("OPTIONS"), Ok(Method::OPTIONS));
    assert!(Method::parse("Get").is_err());
    assert!(Method::parse("GETS").is_err());
    assert!(Method::parse("").is_err());
}

#[test]
fn error_messages() {
    assert_eq!(ParseError::Request.message(), "Invalid Request");
    assert_eq!(ParseError::Encoding.message(), "Invalid Encoding");
    assert_eq!(ParseError::Protocol.message(), "Invalid Protocol");
    assert_eq!(ParseError::Method.message(), "Invalid Method");
}
