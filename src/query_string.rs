use vstd::prelude::*;
use vstd::string::StringSliceAdditionalSpecFns;
use vstd::utf8::*;
use crate::text::{find_byte, index_of, same_bytes, split_around};

verus! {

broadcast use vstd::utf8::group_utf8_lib;

/// The byte that separates the entries of a query string: `&`.
pub const AMP: u8 = 38;

/// The byte that separates a key from its value: `=`.
pub const EQ: u8 = 61;

/// What a query string maps a key to, in its model: the values in the order met.
pub type Values = Seq<Seq<u8>>;

/// The pieces of `s` between the occurrences of `c`, as `str::split` gives them:
/// one more piece than there are occurrences.
pub open spec fn split_on(s: Seq<u8>, c: u8) -> Seq<Seq<u8>>
    decreases s.len(),
{
    let e = index_of(s, c, 0);
    if 0 <= e < s.len() {
        seq![s.take(e)] + split_on(s.skip(e + 1), c)
    } else {
        seq![s]
    }
}

/// The key and value of one entry: split at its first `=`, or the whole entry
/// with an empty value where it holds none.
pub open spec fn entry_of(p: Seq<u8>) -> (Seq<u8>, Seq<u8>) {
    let e = index_of(p, EQ, 0);
    if 0 <= e < p.len() {
        (p.take(e), p.skip(e + 1))
    } else {
        (p, Seq::empty())
    }
}

/// Whether the model `m` holds key `k`.
pub open spec fn has_key(m: Seq<(Seq<u8>, Values)>, k: Seq<u8>) -> bool {
    exists|i: int| 0 <= i < m.len() && m[i].0 == k
}

/// No key occurs twice in `m`, and each key has at least one value.
pub open spec fn model_wf(m: Seq<(Seq<u8>, Values)>) -> bool {
    &&& forall|i: int, j: int| 0 <= i < j < m.len() ==> m[i].0 != m[j].0
    &&& forall|i: int| 0 <= i < m.len() ==> m[i].1.len() >= 1
}

/// Records value `v` for key `k`: appended to the key's values where the key is
/// present, else a new last entry.
pub open spec fn add_value(m: Seq<(Seq<u8>, Values)>, k: Seq<u8>, v: Seq<u8>) -> Seq<(Seq<u8>, Values)> {
    if has_key(m, k) {
        let i = choose|i: int| 0 <= i < m.len() && m[i].0 == k;
        m.update(i, (k, m[i].1.push(v)))
    } else {
        m.push((k, seq![v]))
    }
}

/// The model built from key-value pairs taken in order.
pub open spec fn group_entries(es: Seq<(Seq<u8>, Seq<u8>)>) -> Seq<(Seq<u8>, Values)>
    decreases es.len(),
{
    if es.len() == 0 {
        Seq::empty()
    } else {
        add_value(group_entries(es.drop_last()), es.last().0, es.last().1)
    }
}

/// The model of the query string `s`: keys in order of first appearance, each
/// with all its values in order.
pub open spec fn query_model(s: Seq<u8>) -> Seq<(Seq<u8>, Values)> {
    group_entries(split_on(s, AMP).map_values(|p: Seq<u8>| entry_of(p)))
}

/// The values of one key: one, or several in the order they came.
#[derive(Debug, PartialEq, Eq)]
pub enum Value<'buf> {
    Single(&'buf str),
    Multiple(Vec<&'buf str>),
}

impl<'buf> Value<'buf> {
    /// The values held, in order.
    pub open spec fn values(&self) -> Values {
        match self {
            Value::Single(v) => seq![v.spec_bytes()],
            Value::Multiple(vs) => vs@.map_values(|s: &str| s.spec_bytes()),
        }
    }
}

/// The parameters of a query string, borrowed from the text they were read from.
#[derive(Debug)]
pub struct QueryString<'buf> {
    keys: Vec<&'buf str>,
    values: Vec<Vec<&'buf str>>,
}

/// The bytes of each string in `v`.
pub open spec fn bytes_of(v: Seq<&str>) -> Values {
    v.map_values(|s: &str| s.spec_bytes())
}

impl<'buf> View for QueryString<'buf> {
    type V = Seq<(Seq<u8>, Values)>;

    /// The keys, in order of first appearance, each with its values in order.
    closed spec fn view(&self) -> Seq<(Seq<u8>, Values)> {
        Seq::new(
            self.keys@.len(),
            |i: int| (self.keys@[i].spec_bytes(), bytes_of(self.values@[i]@)),
        )
    }
}

impl<'buf> QueryString<'buf> {
    /// The two vectors describe the same entries, and the model is well formed.
    pub closed spec fn wf(&self) -> bool {
        &&& self.keys@.len() == self.values@.len()
        &&& model_wf(self@)
    }

    /// The index of `key` among the keys, or their number where it is absent.
    fn position(&self, key: &[u8]) -> (r: usize)
        requires
            self.wf(),
        ensures
            r <= self@.len(),
            r < self@.len() ==> self@[r as int].0 == key@,
            r == self@.len() <==> !has_key(self@, key@),
    {
        let mut i: usize = 0;
        while i < self.keys.len()
            invariant
                self.wf(),
                0 <= i <= self@.len(),
                forall|j: int| 0 <= j < i ==> self@[j].0 != key@,
            decreases self.keys.len() - i,
        {
            if same_bytes(self.keys[i].as_bytes(), key) {
                return i;
            }
            i = i + 1;
        }
        i
    }

    /// Records one entry of the form `key=value` or `key`.
    fn add_pair(&mut self, piece: &'buf str)
        requires
            old(self).wf(),
        ensures
            final(self).wf(),
            final(self)@ == add_value(
                old(self)@,
                entry_of(piece.spec_bytes()).0,
                entry_of(piece.spec_bytes()).1,
            ),
    {
        let pb = piece.as_bytes();
        let e = find_byte(pb, EQ);
        let (key, val) = if e < pb.len() {
            split_around(piece, e)
        } else {
            proof {
                assert(is_char_boundary(pb@, pb@.len() as int));
            }
            piece.split_at(pb.len())
        };
        proof {
            if e >= pb.len() {
                assert(key.spec_bytes() =~= piece.spec_bytes());
                assert(val.spec_bytes() =~= Seq::<u8>::empty());
            }
        }
        let ghost k = key.spec_bytes();
        let ghost v = val.spec_bytes();
        let ghost m = self@;
        let i = self.position(key.as_bytes());
        if i < self.keys.len() {
            self.values[i].push(val);
            proof {
                let c = choose|j: int| 0 <= j < m.len() && m[j].0 == k;
                assert(c == i);
                assert(bytes_of(self.values@[i as int]@) =~= m[i as int].1.push(v));
                assert(self@ =~= m.update(i as int, (k, m[i as int].1.push(v))));
            }
        } else {
            let mut vs: Vec<&'buf str> = Vec::new();
            vs.push(val);
            self.keys.push(key);
            self.values.push(vs);
            proof {
                assert(bytes_of(vs@) =~= seq![v]);
                assert(self@ =~= m.push((k, seq![v])));
            }
        }
    }

    /// Reads a query string. Every text gives one: an empty text, or an entry
    /// without `=`, gives an entry with an empty key or value.
    pub fn parse(s: &'buf str) -> (r: QueryString<'buf>)
        ensures
            r.wf(),
            r@ == query_model(s.spec_bytes()),
    {
        let mut q = QueryString { keys: Vec::new(), values: Vec::new() };
        let mut rest: &'buf str = s;
        let mut done = false;
        let ghost f = |p: Seq<u8>| entry_of(p);
        let ghost mut pieces: Seq<Seq<u8>> = Seq::empty();
        proof {
            assert(q@ =~= Seq::<(Seq<u8>, Values)>::empty());
            assert(pieces.map_values(f) =~= Seq::<(Seq<u8>, Seq<u8>)>::empty());
            assert(split_on(s.spec_bytes(), AMP) =~= pieces + split_on(rest.spec_bytes(), AMP));
        }
        while !done
            invariant
                q.wf(),
                q@ == group_entries(pieces.map_values(f)),
                f == (|p: Seq<u8>| entry_of(p)),
                done ==> split_on(s.spec_bytes(), AMP) == pieces,
                !done ==> split_on(s.spec_bytes(), AMP) == pieces + split_on(rest.spec_bytes(), AMP),
            decreases rest.spec_bytes().len() + if done { 0int } else { 1int },
        {
            let b = rest.as_bytes();
            let e = find_byte(b, AMP);
            let ghost rb = rest.spec_bytes();
            let ghost old_pieces = pieces;
            let piece: &'buf str;
            if e < b.len() {
                let (p, tail) = split_around(rest, e);
                piece = p;
                rest = tail;
                proof {
                    assert(split_on(rb, AMP) == seq![rb.take(e as int)] + split_on(rb.skip(e as int + 1), AMP));
                }
            } else {
                piece = rest;
                done = true;
            }
            q.add_pair(piece);
            proof {
                pieces = old_pieces.push(piece.spec_bytes());
                assert(pieces.map_values(f) =~= old_pieces.map_values(f).push(entry_of(piece.spec_bytes())));
                assert(pieces.map_values(f).drop_last() =~= old_pieces.map_values(f));
                if e < b.len() {
                    assert(old_pieces + split_on(rb, AMP) =~= pieces + split_on(rest.spec_bytes(), AMP));
                } else {
                    assert(split_on(rb, AMP) == seq![rb]);
                    assert(old_pieces + split_on(rb, AMP) =~= pieces);
                }
            }
        }
        q
    }

    /// The values recorded for `key`: `Single` where it came once, `Multiple`
    /// with all of them in order where it came more often.
    pub fn get(&self, key: &str) -> (r: Option<Value<'buf>>)
        requires
            self.wf(),
        ensures
            r is None <==> !has_key(self@, key.spec_bytes()),
            r matches Some(v) ==> exists|i: int|
                0 <= i < self@.len() && self@[i].0 == key.spec_bytes() && v.values() == self@[i].1,
            r matches Some(v) ==> (v is Single <==> v.values().len() == 1),
    {
        let i = self.position(key.as_bytes());
        if i == self.keys.len() {
            return None;
        }
        let vs = &self.values[i];
        if vs.len() == 1 {
            let r = Value::Single(vs[0]);
            proof {
                assert(r.values() =~= self@[i as int].1);
            }
            Some(r)
        } else {
            let mut out: Vec<&'buf str> = Vec::new();
            let mut j: usize = 0;
            while j < vs.len()
                invariant
                    0 <= j <= vs@.len(),
                    out@ =~= vs@.take(j as int),
                decreases vs.len() - j,
            {
                out.push(vs[j]);
                j = j + 1;
                proof {
                    assert(out@ =~= vs@.take(j as int));
                }
            }
            let r = Value::Multiple(out);
            proof {
                assert(out@ =~= vs@);
                assert(r.values() =~= self@[i as int].1);
            }
            Some(r)
        }
    }

    /// The number of distinct keys.
    pub fn len(&self) -> (r: usize)
        ensures
            r == self@.len(),
    {
        self.keys.len()
    }
}

} // verus!
