use vstd::prelude::*;
use std::io::Write;

verus! {

/// Relies on str's `PartialEq`: two pieces of text are equal exactly
/// when they consist of the same characters.
#[verifier::external_body]
pub(crate) fn str_eq(a: &str, b: &str) -> (r: bool)
    ensures
        r == (a@ == b@),
{
    a == b
}

/// Relies on str::chars: the characters of the text, in order.
#[verifier::external_body]
pub(crate) fn str_to_chars(s: &str) -> (r: Vec<char>)
    ensures
        r@ == s@,
{
    s.chars().collect()
}

/// Relies on String's `FromIterator`: the text consisting of exactly
/// these characters, in order.
#[verifier::external_body]
pub(crate) fn chars_to_string(v: &Vec<char>) -> (r: String)
    ensures
        r@ == v@,
{
    v.iter().collect()
}

/// Relies on writeln to standard output: the text is written out,
/// followed by a newline. Nothing is promised of the write.
#[verifier::external_body]
pub(crate) fn write_line(s: &str) {
    let _ = writeln!(std::io::stdout(), "{}", s);
}

/// Relies on Stdin::read_line: one line read from standard input.
/// What comes back depends on the host, so nothing is promised of it.
#[verifier::external_body]
pub(crate) fn read_input_line() -> (r: String) {
    let mut input = String::new();
    let _ = std::io::stdin().read_line(&mut input);
    input
}

/// Relies on rand::random: a sample of the full integer range. The
/// result depends on the host's randomness, so nothing is promised of
/// it.
#[verifier::external_body]
pub(crate) fn random_i128() -> (r: i128) {
    rand::random()
}

/// Relies on rand::random_range: a sample of the half-open range,
/// which must not be empty lest the call panic. Every outcome lies in
/// the range.
#[verifier::external_body]
pub(crate) fn random_i128_in(low: i128, high: i128) -> (r: i128)
    requires
        low < high,
    ensures
        low <= r < high,
{
    rand::random_range(low..high)
}

} // verus!
