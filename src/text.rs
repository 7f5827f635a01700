use vstd::prelude::*;
use vstd::utf8::*;
use vstd::string::StringSliceAdditionalSpecFns;

verus! {

broadcast use vstd::utf8::group_utf8_lib;

/// The space character.
pub const SP: u8 = 32;

/// The carriage-return character.
pub const CR: u8 = 13;

/// A byte that separates the words of a request line: a space or a carriage return.
pub open spec fn is_delim(b: u8) -> bool {
    b == SP || b == CR
}

/// The index of the first byte of `s` at or after `i` that satisfies `is_delim`,
/// or `s.len()` where there is none.
pub open spec fn word_end(s: Seq<u8>, i: int) -> int
    decreases s.len() - i,
{
    if i < 0 || i >= s.len() {
        s.len() as int
    } else if is_delim(s[i]) {
        i
    } else {
        word_end(s, i + 1)
    }
}

/// The index of the first byte of `s` at or after `i` equal to `c`, or `s.len()`
/// where there is none.
pub open spec fn index_of(s: Seq<u8>, c: u8, i: int) -> int
    decreases s.len() - i,
{
    if i < 0 || i >= s.len() {
        s.len() as int
    } else if s[i] == c {
        i
    } else {
        index_of(s, c, i + 1)
    }
}

/// The first word of `s` and what follows the delimiter that ends it, or `None`
/// where `s` holds no delimiter.
pub open spec fn next_word(s: Seq<u8>) -> Option<(Seq<u8>, Seq<u8>)> {
    let e = word_end(s, 0);
    if e < s.len() {
        Some((s.take(e), s.skip(e + 1)))
    } else {
        None
    }
}

/// What `word_end` finds: a delimiter or the end, with no delimiter before it.
pub proof fn lemma_word_end(s: Seq<u8>, i: int)
    requires
        0 <= i <= s.len(),
    ensures
        i <= word_end(s, i) <= s.len(),
        word_end(s, i) < s.len() ==> is_delim(s[word_end(s, i)]),
        forall|j: int| i <= j < word_end(s, i) ==> !is_delim(#[trigger] s[j]),
    decreases s.len() - i,
{
    if i < s.len() && !is_delim(s[i]) {
        lemma_word_end(s, i + 1);
    }
}

/// What `index_of` finds: an occurrence of `c` or the end, with none before it.
pub proof fn lemma_index_of(s: Seq<u8>, c: u8, i: int)
    requires
        0 <= i <= s.len(),
    ensures
        i <= index_of(s, c, i) <= s.len(),
        index_of(s, c, i) < s.len() ==> s[index_of(s, c, i)] == c,
        forall|j: int| i <= j < index_of(s, c, i) ==> #[trigger] s[j] != c,
    decreases s.len() - i,
{
    if i < s.len() && s[i] != c {
        lemma_index_of(s, c, i + 1);
    }
}

/// Index of the first delimiter in `b`, or its length.
pub fn find_delim(b: &[u8]) -> (r: usize)
    ensures
        r == word_end(b@, 0),
        r <= b@.len(),
        r < b@.len() ==> is_delim(b@[r as int]),
{
    proof {
        lemma_word_end(b@, 0);
    }
    let mut i: usize = 0;
    while i < b.len()
        invariant
            0 <= i <= b.len(),
            word_end(b@, 0) == word_end(b@, i as int),
        decreases b.len() - i,
    {
        if b[i] == SP || b[i] == CR {
            return i;
        }
        i = i + 1;
    }
    i
}

/// Index of the first byte of `b` equal to `c`, or its length.
pub fn find_byte(b: &[u8], c: u8) -> (r: usize)
    ensures
        r == index_of(b@, c, 0),
        r <= b@.len(),
        r < b@.len() ==> b@[r as int] == c,
{
    proof {
        lemma_index_of(b@, c, 0);
    }
    let mut i: usize = 0;
    while i < b.len()
        invariant
            0 <= i <= b.len(),
            index_of(b@, c, 0) == index_of(b@, c, i as int),
        decreases b.len() - i,
    {
        if b[i] == c {
            return i;
        }
        i = i + 1;
    }
    i
}

/// Whether `a` and `b` hold the same bytes.
pub fn same_bytes(a: &[u8], b: &[u8]) -> (r: bool)
    ensures
        r == (a@ == b@),
{
    if a.len() != b.len() {
        return false;
    }
    let mut i: usize = 0;
    while i < a.len()
        invariant
            a.len() == b.len(),
            0 <= i <= a.len(),
            forall|j: int| 0 <= j < i ==> a@[j] == b@[j],
        decreases a.len() - i,
    {
        if a[i] != b[i] {
            return false;
        }
        i = i + 1;
    }
    assert(a@ =~= b@);
    true
}

/// Splits `s` around the ASCII byte at `i`, which belongs to neither part.
pub fn split_around(s: &str, i: usize) -> (r: (&str, &str))
    requires
        i < s.spec_bytes().len(),
        s.spec_bytes()[i as int] < 0x80,
    ensures
        r.0.spec_bytes() == s.spec_bytes().take(i as int),
        r.1.spec_bytes() == s.spec_bytes().skip(i as int + 1),
{
    let ghost b = s.spec_bytes();
    proof {
        assert(valid_utf8(b));
        assert(is_leading_byte_width_1(b[i as int]));
        assert(is_char_boundary(b, i as int));
    }
    let (head, rest) = s.split_at(i);
    let ghost rb = rest.spec_bytes();
    proof {
        assert(rb =~= b.subrange(i as int, b.len() as int));
        assert(valid_utf8(rb));
        assert(rb[0] < 0x80);
        assert(length_of_first_scalar(rb) == 1);
        assert(is_char_boundary(pop_first_scalar(rb), 0));
        assert(is_char_boundary(rb, 1));
    }
    let (_, tail) = rest.split_at(1);
    proof {
        assert(head.spec_bytes() =~= b.take(i as int));
        assert(tail.spec_bytes() =~= b.skip(i as int + 1));
    }
    (head, tail)
}

/// A word without delimiters, followed by a delimiter, is the first word.
pub proof fn lemma_next_word_concat(a: Seq<u8>, d: u8, rest: Seq<u8>)
    requires
        forall|j: int| 0 <= j < a.len() ==> !is_delim(#[trigger] a[j]),
        is_delim(d),
    ensures
        next_word(a + seq![d] + rest) == Some((a, rest)),
{
    let s = a + seq![d] + rest;
    lemma_word_end_prefix(a, d, rest, 0);
    assert(s.take(a.len() as int) =~= a);
    assert(s.skip(a.len() as int + 1) =~= rest);
}

proof fn lemma_word_end_prefix(a: Seq<u8>, d: u8, rest: Seq<u8>, i: int)
    requires
        forall|j: int| 0 <= j < a.len() ==> !is_delim(#[trigger] a[j]),
        is_delim(d),
        0 <= i <= a.len(),
    ensures
        word_end(a + seq![d] + rest, i) == a.len(),
    decreases a.len() - i,
{
    let s = a + seq![d] + rest;
    if i < a.len() {
        assert(s[i] == a[i]);
        lemma_word_end_prefix(a, d, rest, i + 1);
    } else {
        assert(s[i] == d);
    }
}

/// Where `c` does not occur in `s`, `index_of` gives its length.
pub proof fn lemma_index_of_absent(s: Seq<u8>, c: u8)
    requires
        forall|j: int| 0 <= j < s.len() ==> #[trigger] s[j] != c,
    ensures
        index_of(s, c, 0) == s.len(),
{
    lemma_index_of(s, c, 0);
}

} // verus!
