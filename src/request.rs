use vstd::prelude::*;
use vstd::string::StringSliceAdditionalSpecFns;
use vstd::utf8::*;
use crate::method::{lemma_method_of_verb, lemma_verb_has_no_delim, method_of, verb, Method};
use crate::query_string::{query_model, QueryString, Values};
use crate::text::{
    find_byte, find_delim, index_of, is_delim, lemma_index_of, lemma_index_of_absent,
    lemma_next_word_concat, next_word, split_around, CR, SP,
};

verus! {

broadcast use vstd::utf8::group_utf8_lib;

/// The byte that starts a query string inside a path: `?`.
pub const QUESTION: u8 = 63;

/// The one protocol token accepted: `HTTP/1.1`.
pub open spec fn http11() -> Seq<u8> {
    seq![72u8, 84, 84, 80, 47, 49, 46, 49]
}

/// Why a request line was refused.
#[derive(PartialEq, Eq, Structural, Clone, Copy, Debug)]
pub enum ParseError {
    /// Fewer than three words before the end of the text.
    Request,
    /// The buffer is not UTF-8.
    Encoding,
    /// The protocol word is not `HTTP/1.1`.
    Protocol,
    /// The method word is not a recognized verb.
    Method,
}

impl ParseError {
    /// A short human-readable description of the error.
    pub fn message(&self) -> (r: &'static str)
        ensures
            r@ == message_of(*self),
    {
        match self {
            ParseError::Request => "Invalid Request",
            ParseError::Encoding => "Invalid Encoding",
            ParseError::Protocol => "Invalid Protocol",
            ParseError::Method => "Invalid Method",
        }
    }
}

/// The description of each error.
pub open spec fn message_of(e: ParseError) -> Seq<char> {
    match e {
        ParseError::Request => "Invalid Request"@,
        ParseError::Encoding => "Invalid Encoding"@,
        ParseError::Protocol => "Invalid Protocol"@,
        ParseError::Method => "Invalid Method"@,
    }
}

/// What a parsed request holds, as plain values.
pub struct RequestModel {
    pub path: Seq<u8>,
    pub query: Option<Seq<(Seq<u8>, Values)>>,
    pub method: Method,
}

/// The request that a path word and a verb make: the path cut at its first `?`,
/// with what follows as the query string.
pub open spec fn request_of(p: Seq<u8>, m: Method) -> RequestModel {
    let q = index_of(p, QUESTION, 0);
    if 0 <= q < p.len() {
        RequestModel { path: p.take(q), query: Some(query_model(p.skip(q + 1))), method: m }
    } else {
        RequestModel { path: p, query: None, method: m }
    }
}

/// The outcome of parsing the request line at the start of `buf`.
pub open spec fn parse_model(buf: Seq<u8>) -> Result<RequestModel, ParseError> {
    if !valid_utf8(buf) {
        Err(ParseError::Encoding)
    } else {
        match next_word(buf) {
            None => Err(ParseError::Request),
            Some((m, r1)) => match next_word(r1) {
                None => Err(ParseError::Request),
                Some((p, r2)) => match next_word(r2) {
                    None => Err(ParseError::Request),
                    Some((proto, _)) => if proto != http11() {
                        Err(ParseError::Protocol)
                    } else {
                        match method_of(m) {
                            None => Err(ParseError::Method),
                            Some(mm) => Ok(request_of(p, mm)),
                        }
                    },
                },
            },
        }
    }
}

/// Relies on std::str::from_utf8: it accepts exactly the valid UTF-8 byte
/// sequences and hands back a view of the same bytes.
#[verifier::external_body]
fn decode_text<'a>(buf: &'a [u8]) -> (r: Option<&'a str>)
    ensures
        r is Some <==> valid_utf8(buf@),
        r matches Some(s) ==> s.spec_bytes() == buf@,
{
    std::str::from_utf8(buf).ok()
}

/// Splits off the first word of `request`, ended by a space or a carriage
/// return; `None` where there is no such delimiter.
pub fn get_next_word(request: &str) -> (r: Option<(&str, &str)>)
    ensures
        r is Some <==> next_word(request.spec_bytes()) is Some,
        r matches Some((w, rest)) ==> next_word(request.spec_bytes()) == Some(
            (w.spec_bytes(), rest.spec_bytes()),
        ),
{
    let b = request.as_bytes();
    let i = find_delim(b);
    if i < b.len() {
        let (w, rest) = split_around(request, i);
        Some((w, rest))
    } else {
        None
    }
}

/// A parsed request line: its path, its query string if any, and its verb.
/// The path and query string borrow from the buffer that was parsed.
#[derive(Debug)]
pub struct Request<'buf> {
    path: &'buf str,
    query_string: Option<QueryString<'buf>>,
    method: Method,
}

impl<'buf> View for Request<'buf> {
    type V = RequestModel;

    closed spec fn view(&self) -> RequestModel {
        RequestModel {
            path: self.path.spec_bytes(),
            query: match self.query_string {
                Some(q) => Some(q@),
                None => None,
            },
            method: self.method,
        }
    }
}

/// The model of a parse outcome.
pub open spec fn outcome(r: Result<Request, ParseError>) -> Result<RequestModel, ParseError> {
    match r {
        Ok(q) => Ok(q@),
        Err(e) => Err(e),
    }
}

impl<'buf> Request<'buf> {
    /// Its query string, if present, is well formed.
    pub closed spec fn wf(&self) -> bool {
        self.query_string matches Some(q) ==> q.wf()
    }

    /// Parses the request line at the start of `buf`; what follows it is not read.
    pub fn parse(buf: &'buf [u8]) -> (r: Result<Request<'buf>, ParseError>)
        ensures
            outcome(r) == parse_model(buf@),
            r matches Ok(q) ==> q.wf(),
            r matches Ok(q) ==> forall|j: int| 0 <= j < q@.path.len() ==> q@.path[j] != QUESTION,
    {
        let text = match decode_text(buf) {
            Some(t) => t,
            None => return Err(ParseError::Encoding),
        };
        let (method, rest) = match get_next_word(text) {
            Some(w) => w,
            None => return Err(ParseError::Request),
        };
        let (path, rest) = match get_next_word(rest) {
            Some(w) => w,
            None => return Err(ParseError::Request),
        };
        let (protocol, _) = match get_next_word(rest) {
            Some(w) => w,
            None => return Err(ParseError::Request),
        };
        if !is_http11(protocol.as_bytes()) {
            return Err(ParseError::Protocol);
        }
        let method = match Method::parse(method) {
            Ok(m) => m,
            Err(e) => return Err(ParseError::from(e)),
        };
        let pb = path.as_bytes();
        let q = find_byte(pb, QUESTION);
        proof {
            lemma_index_of(pb@, QUESTION, 0);
        }
        if q < pb.len() {
            let (p, query) = split_around(path, q);
            let qs = QueryString::parse(query);
            Ok(Request { path: p, query_string: Some(qs), method })
        } else {
            Ok(Request { path, query_string: None, method })
        }
    }

    /// The path, without its query string.
    pub fn path(&self) -> (r: &str)
        ensures
            r.spec_bytes() == self@.path,
    {
        self.path
    }

    /// The verb.
    pub fn method(&self) -> (r: &Method)
        ensures
            *r == self@.method,
    {
        &self.method
    }

    /// The query string, where the path held a `?`.
    pub fn query_string(&self) -> (r: Option<&QueryString<'buf>>)
        ensures
            r is Some <==> self@.query is Some,
            r matches Some(q) ==> self@.query == Some(q@) && (self.wf() ==> q.wf()),
    {
        self.query_string.as_ref()
    }
}

/// Whether `t` is exactly `HTTP/1.1`.
fn is_http11(t: &[u8]) -> (r: bool)
    ensures
        r == (t@ == http11()),
{
    let r = t.len() == 8 && t[0] == 72 && t[1] == 84 && t[2] == 84 && t[3] == 80 && t[4] == 47
        && t[5] == 49 && t[6] == 46 && t[7] == 49;
    proof {
        if r {
            assert(t@ =~= http11());
        }
    }
    r
}

impl From<crate::method::MethodError> for ParseError {
    fn from(e: crate::method::MethodError) -> (r: ParseError)
        ensures
            r == ParseError::Method,
    {
        ParseError::Method
    }
}

impl vstd::std_specs::convert::FromSpecImpl<crate::method::MethodError> for ParseError {
    open spec fn obeys_from_spec() -> bool {
        true
    }

    open spec fn from_spec(v: crate::method::MethodError) -> ParseError {
        ParseError::Method
    }
}

/// A request line made of a recognized verb, a path without `?`, and `HTTP/1.1`,
/// ended by a carriage return, parses to that path and verb with no query string,
/// whatever follows it.
pub proof fn lemma_parse_plain_request(m: Method, p: Seq<u8>, t: Seq<u8>)
    requires
        forall|j: int| 0 <= j < p.len() ==> !is_delim(#[trigger] p[j]) && p[j] != QUESTION,
        valid_utf8(verb(m) + seq![SP] + p + seq![SP] + http11() + seq![CR] + t),
    ensures
        parse_model(verb(m) + seq![SP] + p + seq![SP] + http11() + seq![CR] + t) == Ok::<RequestModel, ParseError>(
            RequestModel { path: p, query: None, method: m },
        ),
{
    let buf = verb(m) + seq![SP] + p + seq![SP] + http11() + seq![CR] + t;
    let r1 = p + seq![SP] + http11() + seq![CR] + t;
    let r2 = http11() + seq![CR] + t;
    assert(buf =~= verb(m) + seq![SP] + r1);
    assert(r1 =~= p + seq![SP] + r2);
    lemma_verb_has_no_delim(m);
    lemma_next_word_concat(verb(m), SP, r1);
    lemma_next_word_concat(p, SP, r2);
    assert forall|j: int| 0 <= j < http11().len() implies !is_delim(#[trigger] http11()[j]) by {}
    lemma_next_word_concat(http11(), CR, t);
    lemma_method_of_verb(m);
    lemma_index_of_absent(p, QUESTION);
}

/// Parsing depends on the bytes alone: two parses of the same buffer have the
/// same outcome.
pub proof fn lemma_parse_deterministic(b1: Seq<u8>, b2: Seq<u8>)
    requires
        b1 == b2,
    ensures
        parse_model(b1) == parse_model(b2),
{
}

/// A buffer that is not UTF-8 is refused as such, whatever it holds.
pub proof fn lemma_invalid_encoding(buf: Seq<u8>)
    requires
        !valid_utf8(buf),
    ensures
        parse_model(buf) == Err::<RequestModel, ParseError>(ParseError::Encoding),
{
}

/// A request line whose third word is not `HTTP/1.1` is refused for its
/// protocol, whatever its method and path words.
pub proof fn lemma_unsupported_protocol(buf: Seq<u8>)
    requires
        valid_utf8(buf),
        next_word(buf) matches Some((m, r1)) && next_word(r1) matches Some((p, r2))
            && next_word(r2) matches Some((proto, _)) && proto != http11(),
    ensures
        parse_model(buf) == Err::<RequestModel, ParseError>(ParseError::Protocol),
{
}

/// A request line of three words with `HTTP/1.1` last, whose first word is no
/// recognized verb, is refused for its method.
pub proof fn lemma_unrecognized_method(buf: Seq<u8>)
    requires
        valid_utf8(buf),
        next_word(buf) matches Some((m, r1)) && next_word(r1) matches Some((p, r2))
            && next_word(r2) matches Some((proto, _)) && proto == http11() && method_of(m) is None,
    ensures
        parse_model(buf) == Err::<RequestModel, ParseError>(ParseError::Method),
{
}

/// A UTF-8 text with fewer than three delimited words is refused as malformed.
pub proof fn lemma_malformed_request_line(buf: Seq<u8>)
    requires
        valid_utf8(buf),
        match next_word(buf) {
            None => true,
            Some((m, r1)) => match next_word(r1) {
                None => true,
                Some((p, r2)) => next_word(r2) is None,
            },
        },
    ensures
        parse_model(buf) == Err::<RequestModel, ParseError>(ParseError::Request),
{
}

} // verus!
