//! What holds of texts.

use vstd::prelude::*;

use crate::text::{bytes_before, decimal, digit, first_difference, is_space, text_before, unspaced};

verus! {

/// The number that decimal digits stand for.
pub open spec fn value_of(digits: Seq<char>) -> int
    decreases digits.len(),
{
    if digits.len() == 0 {
        0
    } else {
        10 * value_of(digits.drop_last()) + (digits.last() as int - '0' as int)
    }
}

/// A number is written with the decimal digits that stand for it, and without a zero
/// before them.
pub proof fn law_a_number_is_written_in_decimal(n: nat)
    ensures
        value_of(decimal(n)) == n,
        decimal(n).len() > 0,
        forall|i: int| 0 <= i < decimal(n).len() ==> '0' <= #[trigger] decimal(n)[i] <= '9',
        n > 0 ==> decimal(n)[0] != '0',
        n == 0 ==> decimal(n).len() == 1,
    decreases n,
{
    if n < 10 {
        assert(decimal(n) =~= seq![digit(n)]);
        assert(decimal(n).drop_last() =~= Seq::empty());
        assert(value_of(Seq::<char>::empty()) == 0);
    } else {
        law_a_number_is_written_in_decimal(n / 10);
        assert(decimal(n) =~= decimal(n / 10).push(digit(n % 10)));
        assert(decimal(n).drop_last() =~= decimal(n / 10));
    }
}

/// Of two texts that agree in their first bytes, the one whose next byte is smaller
/// is sorted first, and so is the one that ends there.
pub proof fn law_the_first_differing_byte_decides(a: Seq<char>, b: Seq<char>, at: int)
    requires
        ({
            let x = vstd::utf8::encode_utf8(a);
            let y = vstd::utf8::encode_utf8(b);
            &&& 0 <= at <= x.len()
            &&& at < y.len()
            &&& forall|i: int| 0 <= i < at ==> #[trigger] x[i] == y[i]
            &&& at == x.len() || x[at] < y[at]
        }),
    ensures
        text_before(a, b),
        !text_before(b, a),
{
    let x = vstd::utf8::encode_utf8(a);
    let y = vstd::utf8::encode_utf8(b);
    assert(first_difference(x, y, at));
    assert(bytes_before(x, y));
    if bytes_before(y, x) {
        let i = choose|i: int| #[trigger]
            first_difference(y, x, i) && (i < x.len() && (i == y.len() || y[i] < x[i]));
        if i < at {
            assert(x[i] == y[i]);
        } else if at < i {
            assert(y[at] == x[at]);
        }
    }
}

/// White space is what Unicode says it is.
pub proof fn law_what_white_space_is(c: char)
    ensures
        is_space(c) <==> {
            ||| c == '\t'
            ||| c == '\n'
            ||| c == '\u{b}'
            ||| c == '\u{c}'
            ||| c == '\r'
            ||| c == ' '
            ||| c == '\u{85}'
            ||| c == '\u{a0}'
            ||| c == '\u{1680}'
            ||| '\u{2000}' <= c <= '\u{200a}'
            ||| c == '\u{2028}'
            ||| c == '\u{2029}'
            ||| c == '\u{202f}'
            ||| c == '\u{205f}'
            ||| c == '\u{3000}'
        },
{
}

/// Taking the white space out of a text takes out each character that is white space,
/// and leaves every other where it was among the others.
pub proof fn law_only_white_space_is_taken_out(a: Seq<char>, c: char, b: Seq<char>)
    ensures
        is_space(c) ==> unspaced(a.push(c) + b) == unspaced(a) + unspaced(b),
        !is_space(c) ==> unspaced(a.push(c) + b) == unspaced(a).push(c) + unspaced(b),
        unspaced(Seq::<char>::empty()).len() == 0,
    decreases b.len(),
{
    if b.len() == 0 {
        assert(a.push(c) + b =~= a.push(c));
        assert(a.push(c).drop_last() =~= a);
        assert(unspaced(a) + unspaced(b) =~= unspaced(a));
        assert(unspaced(a).push(c) + unspaced(b) =~= unspaced(a).push(c));
    } else {
        let text = a.push(c) + b;
        law_only_white_space_is_taken_out(a, c, b.drop_last());
        assert(text.drop_last() =~= a.push(c) + b.drop_last());
        assert(text.last() == b.last());
        if !is_space(b.last()) {
            let shorter = unspaced(b.drop_last());
            assert((unspaced(a) + shorter).push(b.last()) =~= unspaced(a) + shorter.push(b.last()));
            assert((unspaced(a).push(c) + shorter).push(b.last()) =~= unspaced(a).push(c)
                + shorter.push(b.last()));
        }
    }
}

} // verus!
