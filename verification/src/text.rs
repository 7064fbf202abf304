//! Numbers written in decimal digits, and the order of names.

use vstd::arithmetic::div_mod::{lemma_div_basics, lemma_div_denominator};
use vstd::arithmetic::power::{lemma_pow0, lemma_pow1, lemma_pow_adds, lemma_pow_positive, pow};
use vstd::prelude::*;

verus! {

/// The character of one decimal digit.
pub open spec fn digit(d: nat) -> char
    recommends
        d < 10,
{
    (d + 48) as char
}

/// `n` in decimal, with no leading zero; zero is the one digit `0`.
pub open spec fn digits(n: nat) -> Seq<char>
    decreases n,
{
    if n < 10 {
        seq![digit(n)]
    } else {
        digits(n / 10).push(digit(n % 10))
    }
}

/// The last `width` decimal digits of `n`, with leading zeros where `n` is shorter.
pub open spec fn padded_digits(n: nat, width: nat) -> Seq<char>
    decreases width,
{
    if width == 0 {
        seq![]
    } else {
        padded_digits(n / 10, (width - 1) as nat).push(digit(n % 10))
    }
}

/// Two numbers with the same digits are the same number.
pub proof fn digits_determine_the_number(a: nat, b: nat)
    requires
        digits(a) == digits(b),
    ensures
        a == b,
    decreases a,
{
    assert(digits(a).last() == digit(a % 10));
    assert(digits(b).last() == digit(b % 10));
    if a >= 10 && b >= 10 {
        assert(digits(a).drop_last() =~= digits(a / 10));
        assert(digits(b).drop_last() =~= digits(b / 10));
        digits_determine_the_number(a / 10, b / 10);
    } else {
        digits_are_not_empty(a / 10);
        digits_are_not_empty(b / 10);
    }
}

proof fn digits_are_not_empty(n: nat)
    ensures
        digits(n).len() > 0,
{
}

/// Whether a text comes before another one or is the same, character by character in the order
/// of the code points; a text comes before those that it begins.
pub open spec fn not_after(a: Seq<char>, b: Seq<char>) -> bool
    decreases a.len(),
{
    if a.len() == 0 {
        true
    } else if b.len() == 0 {
        false
    } else if a[0] == b[0] {
        not_after(a.drop_first(), b.drop_first())
    } else {
        a[0] < b[0]
    }
}

/// Two texts of which neither comes after the other are the same text.
pub proof fn not_after_is_antisymmetric(a: Seq<char>, b: Seq<char>)
    requires
        not_after(a, b),
        not_after(b, a),
    ensures
        a == b,
    decreases a.len(),
{
    if a.len() > 0 && b.len() > 0 {
        not_after_is_antisymmetric(a.drop_first(), b.drop_first());
        assert(a =~= seq![a[0]] + a.drop_first());
        assert(b =~= seq![b[0]] + b.drop_first());
    } else {
        assert(a =~= b);
    }
}

/// A text that does not come after a second one, which does not come after a third, does not
/// come after the third.
pub proof fn not_after_is_transitive(a: Seq<char>, b: Seq<char>, c: Seq<char>)
    requires
        not_after(a, b),
        not_after(b, c),
    ensures
        not_after(a, c),
    decreases a.len(),
{
    if a.len() > 0 && a[0] == b[0] && b[0] == c[0] {
        not_after_is_transitive(a.drop_first(), b.drop_first(), c.drop_first());
    }
}

/// Writes `number` through `smol_str`'s `ToSmolStr::to_smolstr`, which formats an integer with
/// its `Display`: the decimal digits, with no sign and no leading zero.
#[verifier::external_body]
pub(crate) fn number_text(number: u64) -> (text: String)
    ensures
        text@ == digits(number as nat),
{
    smol_str::ToSmolStr::to_smolstr(&number).to_string()
}

/// The digits of a number are as many as it takes: with one fewer it would not fit, unless it is
/// the one digit that there has to be.
pub proof fn digits_fill_their_places(n: nat)
    ensures
        digits(n).len() > 0,
        (n as int) < pow(10, digits(n).len()),
        digits(n).len() > 1 ==> n as int >= pow(10, (digits(n).len() - 1) as nat),
    decreases n,
{
    lemma_pow0(10);
    lemma_pow1(10);
    if n >= 10 {
        digits_fill_their_places(n / 10);
        let len = digits(n / 10).len();
        lemma_pow_adds(10, 1, len);
        lemma_pow_adds(10, 1, (len - 1) as nat);
    }
}

/// The digit of a number at a place, counted from its end, is that of its power of ten.
pub proof fn digits_show_the_number(n: nat, place: nat)
    requires
        place < digits(n).len(),
    ensures
        digits(n)[digits(n).len() - 1 - place] == (48 + n as int / pow(10, place) % 10) as char,
    decreases n,
{
    lemma_pow0(10);
    lemma_div_basics(n as int);
    if n >= 10 && place > 0 {
        digits_show_the_number(n / 10, (place - 1) as nat);
        next_place(n, place);
    }
}

/// Digits of a given width have that width.
pub proof fn padded_digits_have_their_width(n: nat, width: nat)
    ensures
        padded_digits(n, width).len() == width,
    decreases width,
{
    if width > 0 {
        padded_digits_have_their_width(n / 10, (width - 1) as nat);
    }
}

/// The digit at a place of a given width, counted from the end, is that of its power of ten.
pub proof fn padded_digits_show_the_number(n: nat, width: nat, place: nat)
    requires
        place < width,
    ensures
        padded_digits(n, width)[width - 1 - place] == (48 + n as int / pow(10, place) % 10) as char,
    decreases width,
{
    padded_digits_have_their_width(n, width);
    padded_digits_have_their_width(n / 10, (width - 1) as nat);
    lemma_pow0(10);
    lemma_div_basics(n as int);
    if place > 0 {
        padded_digits_show_the_number(n / 10, (width - 1) as nat, (place - 1) as nat);
        next_place(n, place);
    }
}

/// The place of a tenth of a number is the next place of the number.
proof fn next_place(n: nat, place: nat)
    requires
        place > 0,
    ensures
        (n / 10) as int / pow(10, (place - 1) as nat) == n as int / pow(10, place),
{
    lemma_pow1(10);
    lemma_pow_adds(10, 1, (place - 1) as nat);
    lemma_pow_positive(10, (place - 1) as nat);
    lemma_div_denominator(n as int, 10, pow(10, (place - 1) as nat));
}

/// A text comes no later than another one exactly where it begins the other, or where its
/// character is the smaller one at the first place at which the two differ.
pub proof fn the_first_difference_decides(a: Seq<char>, b: Seq<char>)
    ensures
        not_after(a, b) <==> a.is_prefix_of(b) || exists|k: int|
            {
                &&& 0 <= k < a.len() && k < b.len()
                &&& #[trigger] a[k] < b[k]
                &&& a.take(k) == b.take(k)
            },
    decreases a.len(),
{
    if a.len() > 0 && b.len() > 0 {
        let (c, d) = (a.drop_first(), b.drop_first());
        if a[0] == b[0] {
            the_first_difference_decides(c, d);
            if c.is_prefix_of(d) {
                assert forall|i: int| 0 <= i < a.len() implies a[i] == b[i] by {
                    if i > 0 {
                        assert(c[i - 1] == d.take(c.len() as int)[i - 1]);
                    }
                }
                assert(a =~= b.take(a.len() as int));
            }
            if a.is_prefix_of(b) {
                assert forall|i: int| 0 <= i < c.len() implies c[i] == d[i] by {
                    assert(a[i + 1] == b.take(a.len() as int)[i + 1]);
                }
                assert(c =~= d.take(c.len() as int));
            }
            if exists|k: int|
                0 <= k < c.len() && k < d.len() && #[trigger] c[k] < d[k] && c.take(k) == d.take(k) {
                let k = choose|k: int|
                    0 <= k < c.len() && k < d.len() && #[trigger] c[k] < d[k] && c.take(k) == d.take(
                        k,
                    );
                assert(a[k + 1] < b[k + 1]);
                assert forall|i: int| 0 <= i < k + 1 implies a[i] == b[i] by {
                    if i > 0 {
                        assert(c.take(k)[i - 1] == d.take(k)[i - 1]);
                    }
                }
                assert(a.take(k + 1) =~= b.take(k + 1));
            }
            if exists|k: int|
                0 <= k < a.len() && k < b.len() && #[trigger] a[k] < b[k] && a.take(k) == b.take(k) {
                let k = choose|k: int|
                    0 <= k < a.len() && k < b.len() && #[trigger] a[k] < b[k] && a.take(k) == b.take(
                        k,
                    );
                assert(k > 0);
                assert(c[k - 1] < d[k - 1]);
                assert forall|i: int| 0 <= i < k - 1 implies c[i] == d[i] by {
                    assert(a.take(k)[i + 1] == b.take(k)[i + 1]);
                }
                assert(c.take(k - 1) =~= d.take(k - 1));
            }
        } else {
            if a.is_prefix_of(b) {
                assert(a[0] == b.take(a.len() as int)[0]);
            }
            assert(a.take(0) =~= b.take(0));
            assert forall|k: int| 0 < k < a.len() && k < b.len() implies a.take(k) != b.take(k) by {
                assert(a.take(k)[0] != b.take(k)[0]);
            }
        }
    } else if a.len() == 0 {
        assert(a =~= b.take(0));
    }
}

} // verus!
