//! Numbers in order, and numbers of a fixed width.
use crate::text::{decimal, law_decimal_digits, law_decimal_is_injective, push_decimal};
use vstd::prelude::*;
use vstd::relations::{sorted_by, total_ordering};
use vstd::seq_lib::lemma_sorted_unique;

verus! {

/// The order of numbers.
pub open spec fn at_most() -> spec_fn(u64, u64) -> bool {
    |left: u64, right: u64| left <= right
}

/// Numbers in ascending order.
pub open spec fn in_order(numbers: Seq<u64>) -> Seq<u64> {
    numbers.sort_by(at_most())
}

/// `slice::sort_unstable`: the same numbers, in ascending order.
#[verifier::external_body]
fn sort_unstable(numbers: &mut Vec<u64>)
    ensures
        final(numbers)@.to_multiset() == old(numbers)@.to_multiset(),
        sorted_by(final(numbers)@, at_most()),
{
    numbers.sort_unstable()
}

/// Puts numbers in ascending order.
pub fn sort(numbers: Vec<u64>) -> (sorted: Vec<u64>)
    ensures
        sorted@ == in_order(numbers@),
        sorted@.len() == numbers@.len(),
{
    let ghost given = numbers@;
    let mut sorted = numbers;
    sort_unstable(&mut sorted);
    proof {
        assert(total_ordering(at_most()));
        given.lemma_sort_by_ensures(at_most());
        lemma_sorted_unique(sorted@, in_order(given), at_most());
        sorted@.to_multiset_ensures();
        given.to_multiset_ensures();
    }
    sorted
}

/// Numbers in ascending order do ascend, and are the same numbers.
pub proof fn lemma_in_order(numbers: Seq<u64>)
    ensures
        in_order(numbers).len() == numbers.len(),
        in_order(numbers).to_multiset() == numbers.to_multiset(),
        forall|i: int, j: int|
            0 <= i <= j < numbers.len() ==> #[trigger] in_order(numbers)[i]
                <= #[trigger] in_order(numbers)[j],
{
    assert(total_ordering(at_most()));
    numbers.lemma_sort_by_ensures(at_most());
    in_order(numbers).to_multiset_ensures();
    numbers.to_multiset_ensures();
    assert forall|i: int, j: int| 0 <= i <= j < numbers.len() implies #[trigger] in_order(
        numbers,
    )[i] <= #[trigger] in_order(numbers)[j] by {
        if i < j {
            assert(at_most()(in_order(numbers)[i], in_order(numbers)[j]));
        }
    }
}

/// Zeros.
pub open spec fn zeros(count: nat) -> Seq<char> {
    Seq::new(count, |i: int| '0')
}

/// The decimal digits of a number, with zeros before them up to a width.
pub open spec fn padded(value: nat, width: nat) -> Seq<char> {
    if decimal(value).len() >= width {
        decimal(value)
    } else {
        zeros((width - decimal(value).len()) as nat) + decimal(value)
    }
}

proof fn lemma_first_digit(value: nat)
    requires
        value > 0,
    ensures
        decimal(value).len() >= 1,
        decimal(value)[0] != '0',
    decreases value,
{
    if value >= 10 {
        lemma_first_digit(value / 10);
        assert(decimal(value)[0] == decimal(value / 10)[0]);
    }
}

/// Padded forms hold decimal digits, at least one, and different numbers have different
/// padded forms of one width.
pub proof fn law_padded_is_injective(left: nat, right: nat, width: nat)
    ensures
        padded(left, width).len() >= 1,
        forall|i: int|
            0 <= i < padded(left, width).len() ==> '0' <= #[trigger] padded(left, width)[i]
                <= '9',
        padded(left, width) == padded(right, width) <==> left == right,
{
    law_decimal_digits(left);
    law_decimal_digits(right);
    let one = padded(left, width);
    let other = padded(right, width);
    let skipped = one.len() - decimal(left).len();
    let other_skipped = other.len() - decimal(right).len();
    assert(one.skip(skipped) =~= decimal(left));
    assert(other.skip(other_skipped) =~= decimal(right));
    assert forall|i: int| 0 <= i < one.len() implies '0' <= #[trigger] one[i] <= '9' by {
        if i >= skipped {
            assert(one[i] == decimal(left)[i - skipped]);
        }
    }
    if one == other {
        if skipped < other_skipped {
            assert(one[skipped] == decimal(left)[0]);
            assert(other[skipped] == '0');
            if left > 0 {
                lemma_first_digit(left);
            }
        } else if other_skipped < skipped {
            assert(other[other_skipped] == decimal(right)[0]);
            assert(one[other_skipped] == '0');
            if right > 0 {
                lemma_first_digit(right);
            }
        }
        law_decimal_is_injective(left, right);
    }
}

/// How many decimal digits a number has.
fn digits(value: u64) -> (count: u64)
    ensures
        count == decimal(value as nat).len(),
        1 <= count <= 20,
{
    let mut count: u64 = 1;
    let mut rest: u64 = value;
    proof {
        lemma_digits_bound(value as nat);
    }
    while rest >= 10
        invariant
            decimal(value as nat).len() == count - 1 + decimal(rest as nat).len(),
            decimal(value as nat).len() <= 20,
            1 <= count <= 20,
        decreases rest,
    {
        proof {
            lemma_digits_positive((rest / 10) as nat);
        }
        rest = rest / 10;
        count += 1;
    }
    count
}

proof fn lemma_digits_positive(value: nat)
    ensures
        decimal(value).len() >= 1,
{
}

/// Powers of ten.
pub open spec fn ten_to(exponent: nat) -> nat
    decreases exponent,
{
    if exponent == 0 {
        1
    } else {
        10 * ten_to((exponent - 1) as nat)
    }
}

proof fn lemma_digits_below(value: nat, exponent: nat)
    requires
        value < ten_to(exponent),
        exponent >= 1,
    ensures
        decimal(value).len() <= exponent,
    decreases exponent,
{
    if value >= 10 {
        if exponent == 1 {
            assert(ten_to(1) == 10) by {
                reveal_with_fuel(ten_to, 2);
            }
        } else {
            assert(value / 10 < ten_to((exponent - 1) as nat)) by (nonlinear_arith)
                requires
                    value < 10 * ten_to((exponent - 1) as nat),
            ;
            lemma_digits_below(value / 10, (exponent - 1) as nat);
        }
    }
}

proof fn lemma_digits_bound(value: nat)
    requires
        value <= u64::MAX,
    ensures
        decimal(value).len() <= 20,
{
    assert(ten_to(20) == 100_000_000_000_000_000_000) by {
        reveal_with_fuel(ten_to, 21);
    }
    lemma_digits_below(value, 20);
}

/// Appends a number with zeros before it up to a width.
pub fn push_padded(text: &mut String, value: u64, width: u64)
    ensures
        final(text)@ == old(text)@ + padded(value as nat, width as nat),
{
    let ghost before = text@;
    let count: u64 = digits(value);
    let mut filled: u64 = 0;
    if count < width {
        let missing: u64 = width - count;
        assert(text@ =~= before + zeros(0));
        while filled < missing
            invariant
                filled <= missing,
                text@ == before + zeros(filled as nat),
            decreases missing - filled,
        {
            text.push('0');
            assert(text@ =~= before + zeros((filled + 1) as nat));
            filled += 1;
        }
    }
    push_decimal(text, value);
    assert(text@ =~= before + padded(value as nat, width as nat));
}

/// A padded number ends with its digits, with nothing but zeros before them, and has at least
/// the width.
pub proof fn law_padding_is_zeros_in_front(value: nat, width: nat)
    ensures
        ({
            let text = padded(value, width);
            let digits = decimal(value);
            &&& text.len() >= width
            &&& text.len() == width || text == digits
            &&& text.len() >= digits.len()
            &&& text.skip(text.len() - digits.len()) == digits
            &&& forall|i: int| 0 <= i < text.len() - digits.len() ==> #[trigger] text[i] == '0'
        }),
{
    let text = padded(value, width);
    let digits = decimal(value);
    assert(text.skip(text.len() - digits.len()) =~= digits);
}

/// The smallest number comes first and the greatest last, and numbers that ascend stay.
pub proof fn law_order_ascends(numbers: Seq<u64>, at: int)
    requires
        0 <= at < numbers.len(),
    ensures
        in_order(numbers).len() == numbers.len(),
        in_order(numbers)[0] <= numbers[at] <= in_order(numbers).last(),
        in_order(numbers).contains(numbers[at]),
{
    lemma_in_order(numbers);
    numbers.to_multiset_ensures();
    in_order(numbers).to_multiset_ensures();
    assert(numbers.contains(numbers[at]));
    assert(numbers.to_multiset().count(numbers[at]) > 0);
    assert(in_order(numbers).contains(numbers[at]));
    let place = choose|i: int|
        0 <= i < in_order(numbers).len() && in_order(numbers)[i] == numbers[at];
    assert(in_order(numbers)[0] <= in_order(numbers)[place]);
    assert(in_order(numbers)[place] <= in_order(numbers)[numbers.len() - 1]);
}

} // verus!
