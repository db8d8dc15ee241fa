//! Texts: equality, byte order, white space and rendering.

use vstd::prelude::*;

verus! {

/// Whether the two texts are the same.
pub(crate) fn same_text(a: &str, b: &str) -> (same: bool)
    ensures
        same == (a@ == b@),
{
    a.to_owned() == b.to_owned()
}

/// Whether `a` comes before `b` in the lexicographic order of bytes.
pub open spec fn bytes_before(a: Seq<u8>, b: Seq<u8>) -> bool {
    exists|i: int| #[trigger] first_difference(a, b, i) && (i < b.len() && (i == a.len() || a[i] < b[i]))
}

/// Whether `a` and `b` agree below `i`, and one of them ends there or they
/// differ there.
pub open spec fn first_difference(a: Seq<u8>, b: Seq<u8>, i: int) -> bool {
    &&& 0 <= i <= a.len()
    &&& i <= b.len()
    &&& forall|j: int| 0 <= j < i ==> a[j] == b[j]
    &&& (i < a.len() && i < b.len() ==> a[i] != b[i])
}

/// Whether `a` comes before `b` in the order in which texts are sorted: the
/// lexicographic order of their UTF-8 bytes.
pub open spec fn text_before(a: Seq<char>, b: Seq<char>) -> bool {
    bytes_before(vstd::utf8::encode_utf8(a), vstd::utf8::encode_utf8(b))
}

/// Finds where two byte strings first differ, or where the shorter one ends.
proof fn find_difference(a: Seq<u8>, b: Seq<u8>, from: int) -> (at: int)
    requires
        0 <= from <= a.len(),
        from <= b.len(),
        forall|j: int| 0 <= j < from ==> a[j] == b[j],
    ensures
        first_difference(a, b, at),
    decreases a.len() - from,
{
    if from < a.len() && from < b.len() && a[from] == b[from] {
        find_difference(a, b, from + 1)
    } else {
        from
    }
}

/// Of two different texts, one is sorted before the other.
pub proof fn lemma_before_total(a: Seq<char>, b: Seq<char>)
    ensures
        a == b || text_before(a, b) || text_before(b, a),
{
    let x = vstd::utf8::encode_utf8(a);
    let y = vstd::utf8::encode_utf8(b);
    let i = find_difference(x, y, 0);
    assert(first_difference(x, y, i));
    assert(first_difference(y, x, i));
    if i == x.len() && i == y.len() {
        assert(x =~= y);
        vstd::utf8::encode_utf8_decode_utf8(a);
        vstd::utf8::encode_utf8_decode_utf8(b);
    }
}

/// No text is sorted before itself.
pub proof fn lemma_before_irreflexive(a: Seq<char>)
    ensures
        !text_before(a, a),
{
}

/// Sorting before is transitive.
pub proof fn lemma_before_transitive(a: Seq<char>, b: Seq<char>, c: Seq<char>)
    requires
        text_before(a, b),
        text_before(b, c),
    ensures
        text_before(a, c),
{
    let x = vstd::utf8::encode_utf8(a);
    let y = vstd::utf8::encode_utf8(b);
    let z = vstd::utf8::encode_utf8(c);
    let i = choose|i: int| #[trigger]
        first_difference(x, y, i) && (i < y.len() && (i == x.len() || x[i] < y[i]));
    let j = choose|j: int| #[trigger]
        first_difference(y, z, j) && (j < z.len() && (j == y.len() || y[j] < z[j]));
    let k = if i < j { i } else { j };
    assert forall|m: int| 0 <= m < k implies x[m] == z[m] by {
        assert(x[m] == y[m]);
        assert(y[m] == z[m]);
    }
    if i < j {
        assert(y[i] == z[i]);
    }
    if j < i {
        assert(x[j] == y[j]);
    }
    assert(first_difference(x, z, k));
}

/// Whether `a` is sorted before `b`.
pub(crate) fn comes_before(a: &str, b: &str) -> (before: bool)
    ensures
        before == text_before(a@, b@),
{
    let x: &[u8] = a.as_bytes();
    let y: &[u8] = b.as_bytes();
    let mut i: usize = 0;
    while i < x.len() && i < y.len() && x[i] == y[i]
        invariant
            i <= x@.len(),
            i <= y@.len(),
            forall|j: int| 0 <= j < i ==> x@[j] == y@[j],
        decreases x@.len() - i,
    {
        i = i + 1;
    }
    let before: bool = i < y.len() && (i == x.len() || x[i] < y[i]);
    proof {
        assert(first_difference(x@, y@, i as int));
        assert forall|k: int| #[trigger] first_difference(x@, y@, k) implies k == i by {
            if k < i {
                assert(x@[k] == y@[k]);
            }
            if i < k {
                assert(x@[i as int] == y@[i as int]);
            }
        }
    }
    before
}

/// Whether a character is white space, as Unicode has it.
pub open spec fn is_space(c: char) -> bool {
    let n = c as u32;
    ||| 0x9 <= n <= 0xd
    ||| n == 0x20
    ||| n == 0x85
    ||| n == 0xa0
    ||| n == 0x1680
    ||| 0x2000 <= n <= 0x200a
    ||| n == 0x2028
    ||| n == 0x2029
    ||| n == 0x202f
    ||| n == 0x205f
    ||| n == 0x3000
}

/// Whether a character is white space.
pub(crate) fn is_white_space(c: char) -> (answer: bool)
    ensures
        answer == is_space(c),
{
    let n: u32 = c as u32;
    (0x9 <= n && n <= 0xd) || n == 0x20 || n == 0x85 || n == 0xa0 || n == 0x1680 || (0x2000 <= n && n
        <= 0x200a) || n == 0x2028 || n == 0x2029 || n == 0x202f || n == 0x205f || n == 0x3000
}

/// A text without its white space.
pub open spec fn unspaced(text: Seq<char>) -> Seq<char>
    decreases text.len(),
{
    if text.len() == 0 {
        Seq::empty()
    } else if is_space(text.last()) {
        unspaced(text.drop_last())
    } else {
        unspaced(text.drop_last()).push(text.last())
    }
}

/// A text without its white space has none.
pub proof fn lemma_unspaced_again(text: Seq<char>)
    ensures
        unspaced(unspaced(text)) == unspaced(text),
    decreases text.len(),
{
    if text.len() > 0 {
        let shorter = unspaced(text.drop_last());
        lemma_unspaced_again(text.drop_last());
        if !is_space(text.last()) {
            assert(shorter.push(text.last()).drop_last() =~= shorter);
        }
    }
}

/// Whether a character is of the base58 alphabet: the digits and letters of ASCII
/// without `0`, `I`, `O` and `l`.
pub open spec fn is_base58(c: char) -> bool {
    ||| '1' <= c <= '9'
    ||| 'A' <= c <= 'Z' && c != 'I' && c != 'O'
    ||| 'a' <= c <= 'z' && c != 'l'
}

/// Whether a text is a key as it is written down: 48 base58 characters in groups of
/// four, with one space between a group and the next.
pub open spec fn is_written_key(text: Seq<char>) -> bool {
    &&& text.len() == 59
    &&& forall|i: int|
        0 <= i < text.len() ==> if i % 5 == 4 {
            (#[trigger] text[i]) == ' '
        } else {
            is_base58(text[i])
        }
}

/// The decimal digits of a number, most significant first.
pub open spec fn decimal(n: nat) -> Seq<char>
    decreases n,
{
    if n < 10 {
        seq![digit(n)]
    } else {
        decimal(n / 10).push(digit(n % 10))
    }
}

/// One decimal digit.
pub open spec fn digit(n: nat) -> char {
    ((n + 48) as u8) as char
}

/// What `format!("{:?}")` renders of a text: the text in quotes, with what has
/// to be escaped escaped.
pub uninterp spec fn debug_text(text: Seq<char>) -> Seq<char>;

/// Renders a text through `<str as std::fmt::Debug>::fmt`, by way of `format!`.
///
/// Trusted: the result is a function of the text alone, named [`debug_text`].
#[verifier::external_body]
pub(crate) fn quoted(text: &str) -> (quoted: String)
    ensures
        quoted@ == debug_text(text@),
{
    format!("{text:?}")
}

} // verus!
