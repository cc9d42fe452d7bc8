//! The order in which the table ranks text.
//!
//! Text is ranked byte by byte over its UTF-8 form, a proper prefix before
//! its extensions. The table ranks video ids so: the newest stored video is
//! the one whose id ranks last.

use vstd::prelude::*;
use vstd::utf8::{encode_utf8, encode_utf8_decode_utf8, is_ascii_chars_encode_utf8};

verus! {

/// Whether `a` ranks strictly before `b`, byte by byte.
pub open spec fn bytes_before(a: Seq<u8>, b: Seq<u8>) -> bool
    decreases a.len(),
{
    if b.len() == 0 {
        false
    } else if a.len() == 0 {
        true
    } else if a[0] != b[0] {
        a[0] < b[0]
    } else {
        bytes_before(a.drop_first(), b.drop_first())
    }
}

/// Whether the text `a` ranks strictly before the text `b`.
pub open spec fn text_before(a: Seq<char>, b: Seq<char>) -> bool {
    bytes_before(encode_utf8(a), encode_utf8(b))
}

/// Nothing ranks before itself.
pub proof fn lemma_bytes_before_irreflexive(a: Seq<u8>)
    ensures
        !bytes_before(a, a),
    decreases a.len(),
{
    if a.len() > 0 {
        lemma_bytes_before_irreflexive(a.drop_first());
    }
}

/// Of two different byte strings one ranks before the other.
pub proof fn lemma_bytes_before_total(a: Seq<u8>, b: Seq<u8>)
    ensures
        a == b || bytes_before(a, b) || bytes_before(b, a),
    decreases a.len(),
{
    if a.len() == 0 || b.len() == 0 {
        if a.len() == 0 && b.len() == 0 {
            assert(a =~= b);
        }
    } else if a[0] == b[0] {
        lemma_bytes_before_total(a.drop_first(), b.drop_first());
        if a.drop_first() == b.drop_first() {
            assert(a =~= seq![a[0]] + a.drop_first());
            assert(b =~= seq![b[0]] + b.drop_first());
        }
    }
}

/// Two byte strings never rank before each other.
pub proof fn lemma_bytes_before_asymmetric(a: Seq<u8>, b: Seq<u8>)
    ensures
        !(bytes_before(a, b) && bytes_before(b, a)),
    decreases a.len(),
{
    if a.len() > 0 && b.len() > 0 && a[0] == b[0] {
        lemma_bytes_before_asymmetric(a.drop_first(), b.drop_first());
    }
}

/// Ranking before is transitive.
pub proof fn lemma_bytes_before_transitive(a: Seq<u8>, b: Seq<u8>, c: Seq<u8>)
    requires
        bytes_before(a, b),
        bytes_before(b, c),
    ensures
        bytes_before(a, c),
    decreases a.len(),
{
    if a.len() > 0 && a[0] == b[0] && b[0] == c[0] {
        lemma_bytes_before_transitive(a.drop_first(), b.drop_first(), c.drop_first());
    }
}

/// The order of text is a strict total order: no text ranks before itself,
/// of two different texts exactly one ranks before the other, and ranking
/// before is transitive.
pub proof fn lemma_text_order(a: Seq<char>, b: Seq<char>, c: Seq<char>)
    ensures
        !text_before(a, a),
        a == b || text_before(a, b) || text_before(b, a),
        !(text_before(a, b) && text_before(b, a)),
        text_before(a, b) && text_before(b, c) ==> text_before(a, c),
{
    lemma_bytes_before_irreflexive(encode_utf8(a));
    lemma_bytes_before_total(encode_utf8(a), encode_utf8(b));
    lemma_bytes_before_asymmetric(encode_utf8(a), encode_utf8(b));
    if text_before(a, b) && text_before(b, c) {
        lemma_bytes_before_transitive(encode_utf8(a), encode_utf8(b), encode_utf8(c));
    }
    if encode_utf8(a) == encode_utf8(b) {
        encode_utf8_decode_utf8(a);
        encode_utf8_decode_utf8(b);
    }
}

/// Whether the text is made of decimal digits only.
pub open spec fn is_digits(text: Seq<char>) -> bool {
    forall|i: int| 0 <= i < text.len() ==> '0' <= #[trigger] text[i] <= '9'
}

/// The number that a text of decimal digits writes.
pub open spec fn spec_number(text: Seq<char>) -> nat
    decreases text.len(),
{
    if text.len() == 0 {
        0
    } else {
        spec_number(text.drop_last()) * 10 + (text.last() as nat - '0' as nat) as nat
    }
}

proof fn lemma_bytes_before_from_back(a: Seq<u8>, b: Seq<u8>)
    requires
        a.len() == b.len(),
        a.len() > 0,
    ensures
        bytes_before(a, b) == (bytes_before(a.drop_last(), b.drop_last()) || (a.drop_last()
            == b.drop_last() && a.last() < b.last())),
    decreases a.len(),
{
    let a_front = a.drop_last();
    let b_front = b.drop_last();
    if a.len() == 1 {
        assert(a.drop_first().len() == 0);
        assert(!bytes_before(a.drop_first(), b.drop_first()));
        assert(a_front =~= b_front);
    } else if a[0] != b[0] {
        assert(a_front[0] == a[0] && b_front[0] == b[0]);
    } else {
        lemma_bytes_before_from_back(a.drop_first(), b.drop_first());
        assert(a_front[0] == a[0] && b_front[0] == b[0]);
        assert(a_front.drop_first() == a.drop_first().drop_last());
        assert(b_front.drop_first() == b.drop_first().drop_last());
        if a_front.drop_first() == b_front.drop_first() {
            assert(a_front =~= seq![a[0]] + a_front.drop_first());
            assert(b_front =~= seq![b[0]] + b_front.drop_first());
        }
    }
}

/// Ids that are numbers of one length rank as the numbers do: among such
/// ids the one that ranks last is the greatest number.
pub proof fn lemma_digits_rank_as_numbers(a: Seq<char>, b: Seq<char>)
    requires
        is_digits(a),
        is_digits(b),
        a.len() == b.len(),
    ensures
        text_before(a, b) <==> spec_number(a) < spec_number(b),
        a == b <==> spec_number(a) == spec_number(b),
    decreases a.len(),
{
    if a.len() == 0 {
        assert(a =~= b);
        lemma_bytes_before_irreflexive(encode_utf8(a));
    } else {
        let a_front = a.drop_last();
        let b_front = b.drop_last();
        lemma_digits_rank_as_numbers(a_front, b_front);
        is_ascii_chars_encode_utf8(a);
        is_ascii_chars_encode_utf8(b);
        is_ascii_chars_encode_utf8(a_front);
        is_ascii_chars_encode_utf8(b_front);
        assert(encode_utf8(a).drop_last() =~= encode_utf8(a_front));
        assert(encode_utf8(b).drop_last() =~= encode_utf8(b_front));
        lemma_bytes_before_from_back(encode_utf8(a), encode_utf8(b));
        lemma_text_order(a_front, b_front, a_front);
        assert(encode_utf8(a).last() == a.last() as u8);
        assert(encode_utf8(b).last() == b.last() as u8);
        if a_front == b_front && a.last() == b.last() {
            assert(a =~= a_front.push(a.last()));
            assert(b =~= b_front.push(b.last()));
        }
    }
}

/// Decides whether the text `a` ranks strictly before the text `b`.
pub fn text_less(a: &str, b: &str) -> (less: bool)
    ensures
        less == text_before(a@, b@),
{
    let x = a.as_bytes();
    let y = b.as_bytes();
    let mut i: usize = 0;
    assert(x@.skip(0) == x@ && y@.skip(0) == y@);
    while i < x.len() && i < y.len()
        invariant
            i <= x.len(),
            i <= y.len(),
            x@ == encode_utf8(a@),
            y@ == encode_utf8(b@),
            bytes_before(x@, y@) == bytes_before(x@.skip(i as int), y@.skip(i as int)),
        decreases x.len() - i,
    {
        if x[i] != y[i] {
            return x[i] < y[i];
        }
        proof {
            assert(x@.skip(i as int).drop_first() == x@.skip(i + 1));
            assert(y@.skip(i as int).drop_first() == y@.skip(i + 1));
        }
        i += 1;
    }
    i < y.len()
}

} // verus!
