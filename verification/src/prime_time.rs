//! The line-delimited JSON primality service: each non-blank line must be a
//! JSON object whose `method` is the string `isPrime` and whose `number` is a
//! JSON number. A well-formed request is answered with a one-line JSON
//! verdict; a malformed one gets a fixed terminal reply and the connection
//! closes. Only integers can be prime: a numeric `number` that does not fit
//! a signed 64-bit integer (a fraction, or out of range) is answered with
//! `false`. Parsing goes through serde_json; every decision on the parse's
//! outcome is verified here.

use crate::scaffolding::str_eq;
use vstd::arithmetic::div_mod::{
    lemma_fundamental_div_mod, lemma_mod_bound, lemma_mod_multiples_basic,
};
use vstd::prelude::*;
use vstd::string::StringExecFns;

verus! {

/// A number is prime: at least two, and divisible by nothing between one and
/// itself.
pub open spec fn spec_is_prime(n: int) -> bool {
    n >= 2 && forall|d: int| 2 <= d < n ==> #[trigger] (n % d) != 0
}

/// An odd number has no even divisor.
proof fn lemma_odd_has_no_even_divisor(n: int, k: int)
    requires
        n % 2 == 1,
        2 <= k,
        k % 2 == 0,
    ensures
        n % k != 0,
{
    if n % k == 0 {
        lemma_fundamental_div_mod(n, k);
        let q = n / k;
        assert(n == k * q);
        lemma_fundamental_div_mod(k, 2);
        let h = k / 2;
        assert(k == 2 * h);
        assert(n == (h * q) * 2) by (nonlinear_arith)
            requires
                n == k * q,
                k == 2 * h,
        ;
        lemma_mod_multiples_basic(h * q, 2);
    }
}

/// If nothing below `d` divides `n` and `d * d` exceeds `n`, then nothing
/// between one and `n` divides `n`: a divisor pair always has one member no
/// larger than the square root.
proof fn lemma_no_divisor_above(n: int, d: int)
    requires
        n >= 2,
        d >= 2,
        n < d * d,
        forall|k: int| 2 <= k < d ==> #[trigger] (n % k) != 0,
    ensures
        spec_is_prime(n),
{
    assert forall|k: int| 2 <= k < n implies #[trigger] (n % k) != 0 by {
        if k >= d && n % k == 0 {
            lemma_fundamental_div_mod(n, k);
            let q = n / k;
            assert(n == k * q);
            assert(q >= 1) by (nonlinear_arith)
                requires
                    n == k * q,
                    n >= 2,
                    k >= 2,
            ;
            assert(q != 1) by {
                if q == 1 {
                    assert(n == k * 1);
                }
            }
            assert(q < d) by (nonlinear_arith)
                requires
                    n == k * q,
                    n < d * d,
                    k >= d,
                    q >= 2,
                    d >= 2,
            ;
            lemma_mod_multiples_basic(k, q);
            assert(n % q == 0);
        }
    }
}

/// Decides primality by trial division: two is prime, even numbers beyond it
/// are not, and an odd number is prime exactly when no odd divisor up to its
/// square root divides it.
pub fn is_prime(number: i64) -> (r: bool)
    ensures
        r == spec_is_prime(number as int),
{
    if number < 2 {
        return false;
    }
    let n = number as u64;
    if n == 2 {
        return true;
    }
    if n % 2 == 0 {
        proof {
            assert((number as int) % 2 == 0);
            assert(2 < number as int);
        }
        return false;
    }
    let mut d: u64 = 3;
    while d <= n / d
        invariant
            n == number as u64,
            number >= 3,
            n as int == number as int,
            n as int % 2 == 1,
            3 <= d,
            d % 2 == 1,
            forall|k: int| 2 <= k < d ==> #[trigger] ((n as int) % k) != 0,
        decreases n + 2 - d,
    {
        if n % d == 0 {
            proof {
                let ni = n as int;
                let di = d as int;
                lemma_fundamental_div_mod(ni, di);
                assert(di * di <= di * (ni / di)) by (nonlinear_arith)
                    requires
                        di <= ni / di,
                        di >= 0,
                ;
                assert(di * di <= ni);
                assert(di < ni) by (nonlinear_arith)
                    requires
                        di * di <= ni,
                        di >= 3,
                ;
                assert(ni % di == 0);
            }
            return false;
        }
        proof {
            lemma_odd_has_no_even_divisor(n as int, d as int + 1);
        }
        d = d + 2;
    }
    proof {
        let ni = n as int;
        let di = d as int;
        lemma_fundamental_div_mod(ni, di);
        lemma_mod_bound(ni, di);
        assert(ni < di * di) by (nonlinear_arith)
            requires
                ni == di * (ni / di) + ni % di,
                0 <= ni % di < di,
                ni / di <= di - 1,
                di >= 1,
        ;
        lemma_no_divisor_above(ni, di);
    }
    true
}

/// The string at `key` of the JSON object parsed from `line`, `None` when
/// the line does not parse, is not an object, lacks the key, or holds a
/// non-string there. Parsing is deterministic, so this is a function of the
/// characters alone.
pub uninterp spec fn spec_field_str(line: Seq<char>, key: Seq<char>) -> Option<Seq<char>>;

/// Whether the JSON object parsed from `line` holds a JSON number at `key`
/// (`false` when the line does not parse, is not an object, or lacks the
/// key).
pub uninterp spec fn spec_field_is_number(line: Seq<char>, key: Seq<char>) -> bool;

/// The JSON number at `key` of the object parsed from `line`, when there is
/// one and it is representable as a signed 64-bit integer; `None` otherwise.
pub uninterp spec fn spec_field_i64(line: Seq<char>, key: Seq<char>) -> Option<i64>;

/// Relies on serde_json::from_str::<Value>, Value::get and Value::as_str:
/// reads the string field at `key`; the result depends on the arguments'
/// characters alone.
#[verifier::external_body]
fn field_str(line: &str, key: &str) -> (r: Option<String>)
    ensures
        r.deep_view() == spec_field_str(line@, key@),
{
    serde_json::from_str::<serde_json::Value>(line).ok().and_then(
        |v| v.get(key).and_then(|f| f.as_str()).map(|s| s.to_owned()),
    )
}

/// Relies on serde_json::from_str::<Value>, Value::get and Value::is_number:
/// whether the field at `key` is a JSON number; the result depends on the
/// arguments' characters alone.
#[verifier::external_body]
fn field_is_number(line: &str, key: &str) -> (r: bool)
    ensures
        r == spec_field_is_number(line@, key@),
{
    serde_json::from_str::<serde_json::Value>(line).ok().and_then(
        |v| v.get(key).map(|f| f.is_number()),
    ).unwrap_or(false)
}

/// Relies on serde_json::from_str::<Value>, Value::get and Value::as_i64:
/// reads the field at `key` as a signed 64-bit integer; the result depends
/// on the arguments' characters alone.
#[verifier::external_body]
fn field_i64(line: &str, key: &str) -> (r: Option<i64>)
    ensures
        r == spec_field_i64(line@, key@),
{
    serde_json::from_str::<serde_json::Value>(line).ok().and_then(
        |v| v.get(key).and_then(|f| f.as_i64()),
    )
}

/// The one-line JSON verdict for a well-formed request.
pub open spec fn spec_response_line(prime: bool) -> Seq<char> {
    if prime {
        "{\"method\":\"isPrime\",\"prime\":true}\n"@
    } else {
        "{\"method\":\"isPrime\",\"prime\":false}\n"@
    }
}

/// Serializes the verdict.
pub fn response_line(prime: bool) -> (r: String)
    ensures
        r@ == spec_response_line(prime),
{
    if prime {
        String::from_str("{\"method\":\"isPrime\",\"prime\":true}\n")
    } else {
        String::from_str("{\"method\":\"isPrime\",\"prime\":false}\n")
    }
}

/// How a request's `number` field classified.
pub enum NumberValue {
    /// A JSON number representable as a signed 64-bit integer.
    Int(i64),
    /// A JSON number that is not (a fraction, or out of range): by the
    /// protocol, never prime.
    OtherNumber,
    /// Missing, or not a number at all: the request is malformed.
    NotNumber,
}

/// What one received line leads to.
pub enum LineOutcome {
    /// A blank line: ignored.
    Skip,
    /// A well-formed request: send this reply and keep reading.
    Reply(String),
    /// A malformed request: send this reply, then close the connection.
    Terminate(String),
}

/// The verdict on one parsed request: a request whose method is not
/// `isPrime` or whose number is missing or non-numeric is malformed; an
/// integer is judged by `is_prime`; any other number is not prime.
pub fn evaluate_request(method_is_prime: bool, number: &NumberValue) -> (out: LineOutcome)
    ensures
        !(out is Skip),
        !method_is_prime ==> (out matches LineOutcome::Terminate(m) && m@ == "kthxbai\n"@),
        method_is_prime && number is NotNumber ==> (out matches LineOutcome::Terminate(m) && m@
            == "kthxbai\n"@),
        method_is_prime ==> (number matches NumberValue::Int(n) ==> (out
            matches LineOutcome::Reply(r) && r@ == spec_response_line(spec_is_prime(n as int)))),
        method_is_prime && number is OtherNumber ==> (out matches LineOutcome::Reply(r) && r@
            == spec_response_line(false)),
{
    if !method_is_prime {
        return LineOutcome::Terminate(String::from_str("kthxbai\n"));
    }
    match number {
        NumberValue::Int(n) => LineOutcome::Reply(response_line(is_prime(*n))),
        NumberValue::OtherNumber => LineOutcome::Reply(response_line(false)),
        NumberValue::NotNumber => LineOutcome::Terminate(String::from_str("kthxbai\n")),
    }
}

/// The request's method is exactly `isPrime`.
pub open spec fn spec_method_ok(line: Seq<char>) -> bool {
    spec_field_str(line, "method"@) == Some("isPrime"@)
}

/// How the request's `number` field classifies, as the names above report
/// it: an integer, some other JSON number, or nothing numeric at all.
pub open spec fn spec_number_class(line: Seq<char>) -> NumberValue {
    match spec_field_i64(line, "number"@) {
        Some(n) => NumberValue::Int(n),
        None => if spec_field_is_number(line, "number"@) {
            NumberValue::OtherNumber
        } else {
            NumberValue::NotNumber
        },
    }
}

/// One line of the request stream, end to end: blank lines are skipped; any
/// other line is judged by its `method` and `number` fields as the parser
/// reports them — the terminal reply when the method is not `isPrime` or the
/// number is missing or non-numeric, the primality verdict for an integer,
/// and `false` for any other number.
pub fn prime_time_line(line: &str) -> (out: LineOutcome)
    ensures
        (line@.len() == 0) <==> (out is Skip),
        out matches LineOutcome::Terminate(m) ==> m@ == "kthxbai\n"@,
        out matches LineOutcome::Reply(r) ==> (r@ == spec_response_line(true) || r@
            == spec_response_line(false)),
        line@.len() > 0 && (!spec_method_ok(line@) || spec_number_class(line@) is NotNumber) ==> (
        out matches LineOutcome::Terminate(m) && m@ == "kthxbai\n"@),
        line@.len() > 0 && spec_method_ok(line@) ==> (spec_number_class(line@)
            matches NumberValue::Int(n) ==> (out matches LineOutcome::Reply(r) && r@
            == spec_response_line(spec_is_prime(n as int)))),
        line@.len() > 0 && spec_method_ok(line@) && spec_number_class(line@) is OtherNumber ==> (
        out matches LineOutcome::Reply(r) && r@ == spec_response_line(false)),
{
    if line.is_empty() {
        return LineOutcome::Skip;
    }
    let method_is_prime: bool;
    match field_str(line, "method") {
        Some(s) => {
            method_is_prime = str_eq(s.as_str(), "isPrime");
            proof {
                assert(method_is_prime == spec_method_ok(line@));
            }
        },
        None => {
            method_is_prime = false;
            proof {
                assert(!spec_method_ok(line@));
            }
        },
    }
    let number: NumberValue;
    match field_i64(line, "number") {
        Some(n) => {
            number = NumberValue::Int(n);
        },
        None => {
            if field_is_number(line, "number") {
                number = NumberValue::OtherNumber;
            } else {
                number = NumberValue::NotNumber;
            }
        },
    }
    proof {
        assert(number == spec_number_class(line@));
    }
    evaluate_request(method_is_prime, &number)
}

} // verus!
