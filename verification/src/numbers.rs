//! Small functions on integers.

use vstd::prelude::*;

verus! {

/// The integers from `low` to `high`, both included, added up; 0 where
/// `high` is below `low`.
pub open spec fn sum_between(low: int, high: int) -> int
    decreases high - low + 1,
{
    if high < low {
        0
    } else {
        sum_between(low, high - 1) + high
    }
}

/// Twice the sum of a stretch of integers is the sum of its ends times its
/// length.
pub proof fn lemma_sum_between_closed_form(low: int, high: int)
    requires
        low <= high + 1,
    ensures
        2 * sum_between(low, high) == (low + high) * (high - low + 1),
    decreases high - low + 1,
{
    if high < low {
        assert((low + high) * (high - low + 1) == 0) by (nonlinear_arith)
            requires
                high - low + 1 == 0,
        ;
    } else {
        lemma_sum_between_closed_form(low, high - 1);
        assert((low + high) * (high - low + 1) == (low + high - 1) * (high - low) + 2 * high)
            by (nonlinear_arith);
    }
}

/// Whether `n` is divisible by two.
pub fn is_even(n: i32) -> (even: bool)
    ensures
        even <==> n as int % 2 == 0,
{
    n % 2 == 0
}

/// How `guess` stands to `secret`: 0 where it is right, 1 where it is too
/// high, -1 where it is too low.
pub fn check_guess(guess: i32, secret: i32) -> (verdict: i32)
    ensures
        verdict == if guess == secret {
            0int
        } else if guess > secret {
            1int
        } else {
            -1int
        },
{
    if guess == secret {
        0
    } else if guess > secret {
        1
    } else {
        -1
    }
}

/// Adds each integer from `low` to `high`, both included, to `total`, in
/// rising order. No sum on the way may leave the range of `i32`.
pub fn sum(total: &mut i32, low: i32, high: i32)
    requires
        forall|k: int|
            low <= k <= high ==> i32::MIN <= *old(total) + #[trigger] sum_between(low as int, k)
                <= i32::MAX,
    ensures
        *final(total) == *old(total) + sum_between(low as int, high as int),
{
    if low > high {
        return ;
    }
    let mut i: i32 = low;
    loop
        invariant_except_break
            low <= i <= high,
            *total == *old(total) + sum_between(low as int, i - 1),
        invariant
            forall|k: int|
                low <= k <= high ==> i32::MIN <= *old(total) + #[trigger] sum_between(
                    low as int,
                    k,
                ) <= i32::MAX,
        ensures
            *total == *old(total) + sum_between(low as int, high as int),
        decreases high - i,
    {
        assert(sum_between(low as int, i as int) == sum_between(low as int, i - 1) + i);
        *total = *total + i;
        if i == high {
            break ;
        }
        i = i + 1;
    }
}

/// What is said of a number: its divisibility by 3 and 5 comes first, and
/// only a number that neither divides is called even or odd.
#[derive(Clone, Copy, Debug, PartialEq, Eq, Structural)]
pub enum Label {
    /// Divisible by 3 and by 5.
    FizzBuzz,
    /// Divisible by 3, not by 5.
    Fizz,
    /// Divisible by 5, not by 3.
    Buzz,
    /// Divisible by neither, and even.
    Even,
    /// Divisible by neither, and odd.
    Odd,
}

/// What is said of `n`.
pub open spec fn label_of(n: int) -> Label {
    if n % 3 == 0 && n % 5 == 0 {
        Label::FizzBuzz
    } else if n % 3 == 0 {
        Label::Fizz
    } else if n % 5 == 0 {
        Label::Buzz
    } else if n % 2 == 0 {
        Label::Even
    } else {
        Label::Odd
    }
}

/// The numbers of `s` added up.
pub open spec fn total_of(s: Seq<i32>) -> int
    decreases s.len(),
{
    if s.len() == 0 {
        0
    } else {
        total_of(s.drop_last()) + s.last()
    }
}

/// What is said of `number`.
pub fn label(number: i32) -> (said: Label)
    ensures
        said == label_of(number as int),
{
    if number % 3 == 0 && number % 5 == 0 {
        Label::FizzBuzz
    } else if number % 3 == 0 {
        Label::Fizz
    } else if number % 5 == 0 {
        Label::Buzz
    } else if is_even(number) {
        Label::Even
    } else {
        Label::Odd
    }
}

/// The numbers of `numbers` added up, from the first on, or `None` where
/// a sum on the way leaves the range of `i32`.
pub fn total(numbers: &[i32]) -> (sum: Option<i32>)
    ensures
        sum is Some <==> forall|n: int|
            0 <= n <= numbers@.len() ==> i32::MIN <= #[trigger] total_of(numbers@.take(n))
                <= i32::MAX,
        sum matches Some(all) ==> all == total_of(numbers@),
{
    let mut sum: i32 = 0;
    let mut index: usize = 0;
    while index < numbers.len()
        invariant
            index <= numbers@.len(),
            sum == total_of(numbers@.take(index as int)),
            forall|n: int|
                0 <= n <= index ==> i32::MIN <= #[trigger] total_of(numbers@.take(n)) <= i32::MAX,
        decreases numbers@.len() - index,
    {
        assert(numbers@.take(index + 1).drop_last() =~= numbers@.take(index as int));
        match sum.checked_add(numbers[index]) {
            Some(next) => {
                sum = next;
            },
            None => {
                assert(!(i32::MIN <= total_of(numbers@.take(index + 1)) <= i32::MAX));
                return None;
            },
        }
        index = index + 1;
    }
    assert(numbers@.take(numbers@.len() as int) =~= numbers@);
    Some(sum)
}

/// The largest of `numbers`, or `None` where there is none.
pub fn largest(numbers: &[i32]) -> (largest: Option<i32>)
    ensures
        largest is Some <==> numbers@.len() > 0,
        largest matches Some(top) ==> (exists|i: int| 0 <= i < numbers@.len() && numbers@[i] == top)
            && (forall|i: int| 0 <= i < numbers@.len() ==> numbers@[i] <= top),
{
    if numbers.len() == 0 {
        return None;
    }
    let mut largest = numbers[0];
    let mut current_index: usize = 1;
    while current_index < numbers.len()
        invariant
            1 <= current_index <= numbers@.len(),
            exists|i: int| 0 <= i < current_index && numbers@[i] == largest,
            forall|i: int| 0 <= i < current_index ==> numbers@[i] <= largest,
        decreases numbers@.len() - current_index,
    {
        let current_number = numbers[current_index];
        if current_number > largest {
            largest = current_number;
        }
        current_index = current_index + 1;
    }
    Some(largest)
}

/// Does what [`sum`] does where no sum on the way leaves the range of
/// `i32`, and says so; where one does, leaves `total` as it is.
pub fn checked_sum(total: &mut i32, low: i32, high: i32) -> (done: bool)
    ensures
        done <==> forall|k: int|
            low <= k <= high ==> i32::MIN <= *old(total) + #[trigger] sum_between(low as int, k)
                <= i32::MAX,
        done ==> *final(total) == *old(total) + sum_between(low as int, high as int),
        !done ==> *final(total) == *old(total),
{
    if low <= high {
        let mut i: i32 = low;
        let mut reached: i64 = *total as i64;
        loop
            invariant_except_break
                low <= i <= high,
                reached == *total + sum_between(low as int, i - 1),
                i32::MIN <= reached <= i32::MAX,
            invariant
                *total == *old(total),
                forall|k: int|
                    low <= k < i ==> i32::MIN <= *total + #[trigger] sum_between(low as int, k)
                        <= i32::MAX,
            ensures
                forall|k: int|
                    low <= k <= high ==> i32::MIN <= *total + #[trigger] sum_between(low as int, k)
                        <= i32::MAX,
            decreases high - i,
        {
            assert(sum_between(low as int, i as int) == sum_between(low as int, i - 1) + i);
            reached = reached + i as i64;
            if reached < i32::MIN as i64 || reached > i32::MAX as i64 {
                return false;
            }
            if i == high {
                break ;
            }
            i = i + 1;
        }
    }
    sum(total, low, high);
    true
}

} // verus!
