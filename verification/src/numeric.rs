//! The one numeric routine that needs no arithmetic on real numbers here:
//! the factorial, taken from `statrs`. All other routines are the caller's:
//! the dispatcher hands their validated arguments out.

use vstd::prelude::*;

verus! {

/// The text that `statrs` and the standard formatter give for `n!`: the
/// factorial as `statrs::function::factorial::factorial` returns it, written
/// by `Display`. It depends on `n` alone.
pub uninterp spec fn factorial_text(n: u64) -> Seq<char>;

/// Calls `statrs::function::factorial::factorial`, which returns `n!` from a
/// table for `n <= 170` and infinity above, and writes the result with
/// `Display`. The contract only names that text.
#[verifier::external_body]
fn factorial_display(n: u64) -> (r: String)
    ensures
        r@ == factorial_text(n),
{
    format!("{}", statrs::function::factorial::factorial(n))
}

/// The factorial of `n` as text.
pub fn get_factorial(n: u64) -> (r: String)
    ensures
        r@ == factorial_text(n),
{
    factorial_display(n)
}

} // verus!
