//! Routines on numbers and truth values whose results do not depend on the
//! detours they take.

use rand::rngs::ThreadRng;
use rand::Rng;
use vstd::prelude::*;

verus! {

/// `rand::rngs::ThreadRng`: a handle to the random number generator of the
/// current thread. Nothing is known of its state.
#[verifier::external_type_specification]
#[verifier::external_body]
pub struct ExThreadRng(ThreadRng);

/// `rand::thread_rng` hands out the generator of the current thread, which
/// the system seeds on first use (and which gives up if the system has no
/// seed to offer). Nothing is claimed of the handle.
pub assume_specification[ rand::thread_rng ]() -> (rng: ThreadRng)
;

/// Calls `rand::Rng::gen_range` with the half-open range from `low` to
/// `high`.
///
/// Assumed, not proved: the number drawn lies in that range. Which number it
/// is differs from call to call.
#[verifier::external_body]
fn draw(rng: &mut ThreadRng, low: i32, high: i32) -> (drawn: i32)
    requires
        low < high,
    ensures
        low <= drawn < high,
{
    rng.gen_range(low..high)
}

/// Adds `b` to `a` and takes it away again, twice over: the result is twice
/// `a`. Both intermediate results and the result must fit the type.
pub fn useless_addition(a: i64, b: i64) -> (result: i64)
    requires
        i64::MIN <= a + b <= i64::MAX,
        i64::MIN <= b - a <= i64::MAX,
        i64::MIN <= 2 * a <= i64::MAX,
    ensures
        result == 2 * a,
{
    (a + b) - (b - a)
}

/// Multiplies `a` by `b` and adds two products with zero. The product must
/// fit the type.
pub fn useless_multiplication(a: i64, b: i64) -> (result: i64)
    requires
        i64::MIN <= a * b <= i64::MAX,
    ensures
        result == a * b,
{
    (a * b) + (a * 0) + (b * 0)
}

/// Counts up and down again `n` times and ends where it began, at zero.
pub fn useless_loop(n: usize) -> (result: usize)
    ensures
        result == 0,
{
    let mut acc: usize = 0;
    for i in 0..n
        invariant
            acc == 0,
    {
        acc += i;
        acc -= i;
        acc += 1;
        acc -= 1;
    }
    acc
}

/// Walks down from `n` to zero and returns what it finds there: zero.
pub fn useless_recursion(n: u32) -> (result: u32)
    ensures
        result == 0,
    decreases n,
{
    if n == 0 {
        0
    } else {
        useless_recursion(n - 1)
    }
}

/// Asks five questions about `a` and `b` of which, whatever the two are, at
/// least one is answered with yes.
pub fn useless_bool_chain(a: bool, b: bool) -> (result: bool)
    ensures
        result,
{
    ((a && b) || (!a && b)) || (a && !b) || (a || b) || !(a && b)
}

/// Draws a random number from 0 to 999, looks away, and answers 42.
pub fn useless_random_operation() -> (answer: i32)
    ensures
        answer == 42,
{
    let mut rng = rand::thread_rng();
    let _ = draw(&mut rng, 0, 1000);
    42
}

} // verus!
