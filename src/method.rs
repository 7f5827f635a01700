use vstd::prelude::*;
use vstd::string::StringSliceAdditionalSpecFns;
use crate::text::{is_delim, same_bytes};

verus! {

/// The request verbs that the parser recognizes.
#[derive(PartialEq, Eq, Structural, Clone, Copy, Debug)]
pub enum Method {
    GET,
    DELETE,
    POST,
    PUT,
    HEAD,
    CONNECT,
    OPTIONS,
    TRACE,
    PATCH,
}

/// The token did not name a recognized verb.
#[derive(PartialEq, Eq, Structural, Clone, Copy, Debug)]
pub struct MethodError;

/// The exact, upper-case spelling of each verb, as bytes.
pub open spec fn verb(m: Method) -> Seq<u8> {
    match m {
        Method::GET => seq![71u8, 69, 84],
        Method::DELETE => seq![68u8, 69, 76, 69, 84, 69],
        Method::POST => seq![80u8, 79, 83, 84],
        Method::PUT => seq![80u8, 85, 84],
        Method::HEAD => seq![72u8, 69, 65, 68],
        Method::CONNECT => seq![67u8, 79, 78, 78, 69, 67, 84],
        Method::OPTIONS => seq![79u8, 80, 84, 73, 79, 78, 83],
        Method::TRACE => seq![84u8, 82, 65, 67, 69],
        Method::PATCH => seq![80u8, 65, 84, 67, 72],
    }
}

/// The verb whose spelling is exactly `t`, if any.
pub open spec fn method_of(t: Seq<u8>) -> Option<Method> {
    if exists|m: Method| verb(m) == t {
        Some(choose|m: Method| verb(m) == t)
    } else {
        None
    }
}

/// Two verbs never share a spelling.
pub proof fn lemma_verb_injective(a: Method, b: Method)
    ensures
        verb(a) == verb(b) ==> a == b,
{
    if verb(a) == verb(b) && a != b {
        assert(verb(a).len() == verb(b).len());
        assert(verb(a)[0] == verb(b)[0]);
        assert(verb(a)[1] == verb(b)[1]);
    }
}

/// No verb's spelling holds a space or a carriage return.
pub proof fn lemma_verb_has_no_delim(m: Method)
    ensures
        forall|j: int| 0 <= j < verb(m).len() ==> !is_delim(#[trigger] verb(m)[j]),
{
}

/// `method_of` gives back the verb of each spelling.
pub proof fn lemma_method_of_verb(m: Method)
    ensures
        method_of(verb(m)) == Some(m),
{
    let c = choose|x: Method| verb(x) == verb(m);
    lemma_verb_injective(c, m);
}

impl Method {
    /// Reads a verb from its exact, case-sensitive spelling.
    pub fn parse(token: &str) -> (r: Result<Method, MethodError>)
        ensures
            r == match method_of(token.spec_bytes()) {
                Some(m) => Ok::<Method, MethodError>(m),
                None => Err(MethodError),
            },
    {
        let t = token.as_bytes();
        let get: [u8; 3] = [71, 69, 84];
        let delete: [u8; 6] = [68, 69, 76, 69, 84, 69];
        let post: [u8; 4] = [80, 79, 83, 84];
        let put: [u8; 3] = [80, 85, 84];
        let head: [u8; 4] = [72, 69, 65, 68];
        let connect: [u8; 7] = [67, 79, 78, 78, 69, 67, 84];
        let options: [u8; 7] = [79, 80, 84, 73, 79, 78, 83];
        let trace: [u8; 5] = [84, 82, 65, 67, 69];
        let patch: [u8; 5] = [80, 65, 84, 67, 72];
        proof {
            assert(get@ =~= verb(Method::GET));
            assert(delete@ =~= verb(Method::DELETE));
            assert(post@ =~= verb(Method::POST));
            assert(put@ =~= verb(Method::PUT));
            assert(head@ =~= verb(Method::HEAD));
            assert(connect@ =~= verb(Method::CONNECT));
            assert(options@ =~= verb(Method::OPTIONS));
            assert(trace@ =~= verb(Method::TRACE));
            assert(patch@ =~= verb(Method::PATCH));
        }
        let m = if same_bytes(t, get.as_slice()) {
            Method::GET
        } else if same_bytes(t, delete.as_slice()) {
            Method::DELETE
        } else if same_bytes(t, post.as_slice()) {
            Method::POST
        } else if same_bytes(t, put.as_slice()) {
            Method::PUT
        } else if same_bytes(t, head.as_slice()) {
            Method::HEAD
        } else if same_bytes(t, connect.as_slice()) {
            Method::CONNECT
        } else if same_bytes(t, options.as_slice()) {
            Method::OPTIONS
        } else if same_bytes(t, trace.as_slice()) {
            Method::TRACE
        } else if same_bytes(t, patch.as_slice()) {
            Method::PATCH
        } else {
            proof {
                assert forall|m: Method| verb(m) != t@ by {
                    match m {
                        Method::GET => {},
                        Method::DELETE => {},
                        Method::POST => {},
                        Method::PUT => {},
                        Method::HEAD => {},
                        Method::CONNECT => {},
                        Method::OPTIONS => {},
                        Method::TRACE => {},
                        Method::PATCH => {},
                    }
                }
            }
            return Err(MethodError);
        };
        proof {
            lemma_method_of_verb(m);
        }
        Ok(m)
    }
}

} // verus!
