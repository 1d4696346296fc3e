//! The verified half of the call executor: the self-call precheck and the
//! mapping of a transport outcome onto the caller-visible result. The
//! transport itself (the one asynchronous outside call) is the boundary's
//! business; it hands the raw outcome to `map_forward_outcome`.

use vstd::prelude::*;
use vstd::string::StringExecFns;
use crate::types::{Identity, CallCanisterArgs, CallResult};

verus! {

/// The character of one decimal digit.
pub open spec fn digit_char(d: int) -> char {
    if d == 0 {
        '0'
    } else if d == 1 {
        '1'
    } else if d == 2 {
        '2'
    } else if d == 3 {
        '3'
    } else if d == 4 {
        '4'
    } else if d == 5 {
        '5'
    } else if d == 6 {
        '6'
    } else if d == 7 {
        '7'
    } else if d == 8 {
        '8'
    } else {
        '9'
    }
}

/// The decimal digits of `n`, most significant first, no leading zeros.
pub open spec fn decimal_digits(n: nat) -> Seq<char>
    decreases n,
{
    if n < 10 {
        seq![digit_char(n as int)]
    } else {
        decimal_digits(n / 10).push(digit_char((n % 10) as int))
    }
}

/// The message a self-call is rejected with.
pub open spec fn self_call_text() -> Seq<char> {
    "Attempted to call forward on self. This is not allowed. Call this method via a different custodian."@
}

/// The message a transport failure is reported with.
pub open spec fn transport_error_text(code: u8, msg: Seq<char>) -> Seq<char> {
    "An error happened during the call: "@ + decimal_digits(code as nat) + ": "@ + msg
}

/// Appends one decimal digit to the string.
fn append_digit(s: &mut String, d: u8)
    requires
        d < 10,
    ensures
        final(s)@ == old(s)@ + seq![digit_char(d as int)],
{
    proof {
        reveal_strlit("0");
        reveal_strlit("1");
        reveal_strlit("2");
        reveal_strlit("3");
        reveal_strlit("4");
        reveal_strlit("5");
        reveal_strlit("6");
        reveal_strlit("7");
        reveal_strlit("8");
        reveal_strlit("9");
    }
    match d {
        0 => s.append("0"),
        1 => s.append("1"),
        2 => s.append("2"),
        3 => s.append("3"),
        4 => s.append("4"),
        5 => s.append("5"),
        6 => s.append("6"),
        7 => s.append("7"),
        8 => s.append("8"),
        _ => s.append("9"),
    }
    proof {
        assert(final(s)@ =~= old(s)@ + seq![digit_char(d as int)]);
    }
}

/// The decimal rendering of a byte.
pub fn decimal_of_u8(n: u8) -> (r: String)
    ensures
        r@ == decimal_digits(n as nat),
{
    let mut s = String::new();
    if n >= 100 {
        append_digit(&mut s, n / 100);
        append_digit(&mut s, (n / 10) % 10);
        append_digit(&mut s, n % 10);
        proof {
            reveal_with_fuel(decimal_digits, 4);
            assert(n / 10 >= 10);
            assert((n / 10) / 10 == n as nat / 100) by (nonlinear_arith);
            assert((n / 10) % 10 == (n as nat / 10) % 10);
            assert(s@ =~= decimal_digits(n as nat));
        }
    } else if n >= 10 {
        append_digit(&mut s, n / 10);
        append_digit(&mut s, n % 10);
        proof {
            reveal_with_fuel(decimal_digits, 4);
            assert(n / 10 < 10);
            assert(s@ =~= decimal_digits(n as nat));
        }
    } else {
        append_digit(&mut s, n);
        proof {
            assert(s@ =~= decimal_digits(n as nat));
        }
    }
    s
}

/// Rejects a forwarding request aimed at the proxy itself; any other
/// target passes.
pub fn wallet_call_precheck(self_id: &Identity, args: &CallCanisterArgs) -> (r: Result<
    (),
    String,
>)
    ensures
        r is Ok <==> args.canister@ != self_id@,
        r is Err ==> r->Err_0@ == self_call_text(),
{
    if args.canister.same(self_id) {
        Err(
            "Attempted to call forward on self. This is not allowed. Call this method via a different custodian.".to_owned(),
        )
    } else {
        Ok(())
    }
}

/// Maps the transport's outcome onto the caller-visible result: success
/// bytes pass through verbatim; a failure becomes the formatted message
/// with the failure code and text.
pub fn map_forward_outcome(outcome: Result<Vec<u8>, (u8, String)>) -> (r: Result<
    CallResult,
    String,
>)
    ensures
        outcome is Ok ==> r is Ok && r->Ok_0@ == outcome->Ok_0@,
        outcome is Err ==> r is Err && r->Err_0@ == transport_error_text(
            outcome->Err_0.0,
            outcome->Err_0.1@,
        ),
{
    match outcome {
        Ok(bytes) => Ok(CallResult { ret: bytes }),
        Err((code, msg)) => {
            let mut s = "An error happened during the call: ".to_owned();
            let digits = decimal_of_u8(code);
            s.append(digits.as_str());
            s.append(": ");
            s.append(msg.as_str());
            Err(s)
        },
    }
}

} // verus!
