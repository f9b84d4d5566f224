//! Byte-level reasoning about UTF-8 text: concatenation, slicing at byte
//! offsets, and replacing a byte range of a string.

use vstd::prelude::*;
use vstd::string::*;
use vstd::utf8::*;

verus! {

/// The UTF-8 bytes of a sequence of characters.
pub open spec fn utf8(chars: Seq<char>) -> Seq<u8> {
    encode_utf8(chars)
}

/// `doc` with the bytes in `start..end` replaced by `insert`.
pub open spec fn spliced(doc: Seq<u8>, start: int, end: int, insert: Seq<u8>) -> Seq<u8> {
    doc.subrange(0, start) + insert + doc.subrange(end, doc.len() as int)
}

/// Encoding distributes over concatenation.
pub proof fn lemma_utf8_add(a: Seq<char>, b: Seq<char>)
    ensures
        utf8(a + b) == utf8(a) + utf8(b),
    decreases a.len(),
{
    if a.len() == 0 {
        assert(a + b =~= b);
        assert(utf8(a) + utf8(b) =~= utf8(b));
    } else {
        lemma_utf8_add(a.drop_first(), b);
        assert((a + b).drop_first() =~= a.drop_first() + b);
        assert((a + b)[0] == a[0]);
        assert(utf8(a + b) =~= utf8(a) + utf8(b));
    }
}

/// A sequence of characters is determined by its encoding.
pub proof fn lemma_utf8_injective(a: Seq<char>, b: Seq<char>)
    requires
        utf8(a) == utf8(b),
    ensures
        a == b,
{
    encode_utf8_decode_utf8(a);
    encode_utf8_decode_utf8(b);
}

/// Whether a byte offset falls on a character boundary depends only on the
/// byte found there.
pub proof fn lemma_boundary_local(a: Seq<u8>, b: Seq<u8>, i: int)
    requires
        valid_utf8(a),
        valid_utf8(b),
        0 <= i < a.len(),
        i < b.len(),
        a[i] == b[i],
        is_char_boundary(a, i),
    ensures
        is_char_boundary(b, i),
{
    is_char_boundary_iff_not_is_continuation_byte(a, i);
    is_char_boundary_iff_not_is_continuation_byte(b, i);
}

/// The place where two valid encodings are joined is a character boundary of
/// the joined text.
pub proof fn lemma_boundary_at_join(a: Seq<u8>, b: Seq<u8>)
    requires
        valid_utf8(a),
        valid_utf8(b),
    ensures
        valid_utf8(a + b),
        is_char_boundary(a + b, a.len() as int),
{
    valid_utf8_concat(a, b);
    if b.len() == 0 {
        assert(a + b =~= a);
        is_char_boundary_start_end_of_seq(a);
    } else {
        is_char_boundary_start_end_of_seq(b);
        is_char_boundary_iff_not_is_continuation_byte(b, 0);
        is_char_boundary_iff_not_is_continuation_byte(a + b, a.len() as int);
    }
}

/// The bytes between two character boundaries are a valid encoding.
pub proof fn lemma_between_boundaries(doc: Seq<u8>, i: int, j: int)
    requires
        valid_utf8(doc),
        is_char_boundary(doc, i),
        is_char_boundary(doc, j),
        i <= j,
    ensures
        0 <= i <= j <= doc.len(),
        valid_utf8(doc.subrange(i, j)),
{
    valid_utf8_split(doc, j);
    let head = doc.subrange(0, j);
    if i < j {
        lemma_boundary_local(doc, head, i);
    } else {
        is_char_boundary_start_end_of_seq(head);
    }
    valid_utf8_split(head, i);
    assert(head.subrange(i, head.len() as int) =~= doc.subrange(i, j));
}

/// The concatenation of two strings.
pub fn join_two(a: &str, b: &str) -> (out: String)
    ensures
        out@ == a@ + b@,
{
    let mut out = String::from_str(a);
    out.append(b);
    out
}

/// The concatenation of three strings.
pub fn join_three(a: &str, b: &str, c: &str) -> (out: String)
    ensures
        out@ == a@ + b@ + c@,
{
    let mut out = String::from_str(a);
    out.append(b);
    out.append(c);
    out
}

/// Replaces the bytes `start..end` of `text` by `insert`.
///
/// Both offsets must fall on character boundaries of `text`.
pub fn splice(text: &str, start: usize, end: usize, insert: &str) -> (out: String)
    requires
        start <= end <= utf8(text@).len(),
        is_char_boundary(utf8(text@), start as int),
        is_char_boundary(utf8(text@), end as int),
    ensures
        utf8(out@) == spliced(utf8(text@), start as int, end as int, utf8(insert@)),
{
    let (prefix, _) = text.split_at(start);
    let (_, suffix) = text.split_at(end);
    let out = join_three(prefix, insert, suffix);
    proof {
        lemma_utf8_add(prefix@ + insert@, suffix@);
        lemma_utf8_add(prefix@, insert@);
    }
    out
}

/// Tells whether two strings hold the same text.
pub fn same_text(a: &str, b: &str) -> (same: bool)
    ensures
        same == (a@ == b@),
{
    let x = a.as_bytes();
    let y = b.as_bytes();
    if x.len() != y.len() {
        return false;
    }
    let mut i: usize = 0;
    while i < x.len()
        invariant
            i <= x.len(),
            x.len() == y.len(),
            x@ == utf8(a@),
            y@ == utf8(b@),
            forall|j: int| 0 <= j < i ==> x@[j] == y@[j],
        decreases x.len() - i,
    {
        if x[i] != y[i] {
            return false;
        }
        i = i + 1;
    }
    proof {
        assert(x@ =~= y@);
        lemma_utf8_injective(a@, b@);
    }
    true
}

} // verus!
