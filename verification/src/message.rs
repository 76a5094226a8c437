use vstd::prelude::*;
use vstd::string::StringExecFns;
use crate::StoreError;

verus! {

/// The character for one decimal digit.
pub open spec fn dec_digit(d: int) -> char {
    if d == 0 {
        '0'
    } else if d == 1 {
        '1'
    } else if d == 2 {
        '2'
    } else if d == 3 {
        '3'
    } else if d == 4 {
        '4'
    } else if d == 5 {
        '5'
    } else if d == 6 {
        '6'
    } else if d == 7 {
        '7'
    } else if d == 8 {
        '8'
    } else {
        '9'
    }
}

/// The decimal representation of a number, most significant digit first,
/// without leading zeroes (a lone zero for 0).
pub open spec fn dec_rep(n: nat) -> Seq<char>
    decreases n,
{
    if n < 10 {
        seq![dec_digit(n as int)]
    } else {
        dec_rep(n / 10).push(dec_digit((n % 10) as int))
    }
}

/// One decimal digit as text.
fn digit_str(d: u32) -> (r: &'static str)
    requires
        d < 10,
    ensures
        r@ == seq![dec_digit(d as int)],
{
    proof {
        reveal_strlit("0");
        reveal_strlit("1");
        reveal_strlit("2");
        reveal_strlit("3");
        reveal_strlit("4");
        reveal_strlit("5");
        reveal_strlit("6");
        reveal_strlit("7");
        reveal_strlit("8");
        reveal_strlit("9");
    }
    let r = if d == 0 {
        "0"
    } else if d == 1 {
        "1"
    } else if d == 2 {
        "2"
    } else if d == 3 {
        "3"
    } else if d == 4 {
        "4"
    } else if d == 5 {
        "5"
    } else if d == 6 {
        "6"
    } else if d == 7 {
        "7"
    } else if d == 8 {
        "8"
    } else {
        "9"
    };
    proof {
        assert(r@ =~= seq![dec_digit(d as int)]);
    }
    r
}

/// Appends the decimal representation of `n`.
pub fn append_dec(s: &mut String, n: u32)
    ensures
        final(s)@ == old(s)@ + dec_rep(n as nat),
    decreases n,
{
    let ghost pre = s@;
    if n >= 10 {
        append_dec(s, n / 10);
        s.append(digit_str(n % 10));
        proof {
            assert(s@ =~= pre + dec_rep(n as nat));
        }
    } else {
        s.append(digit_str(n));
        proof {
            assert(s@ =~= pre + dec_rep(n as nat));
        }
    }
}

/// The decimal representation of `n` as an owned string.
pub fn dec_string(n: u32) -> (r: String)
    ensures
        r@ == dec_rep(n as nat),
{
    let mut s = String::new();
    append_dec(&mut s, n);
    proof {
        assert(Seq::<char>::empty() + dec_rep(n as nat) =~= dec_rep(n as nat));
    }
    s
}

/// The message reported when no live post carries the identifier.
pub fn not_found_message(id: u32) -> (r: String)
    ensures
        r@ == "There is no blog with id: "@ + dec_rep(id as nat),
{
    let mut s = String::from_str("There is no blog with id: ");
    append_dec(&mut s, id);
    s
}

impl StoreError {
    /// A human-readable reason, surfaced to the caller instead of raw
    /// backend internals.
    pub fn message(&self) -> (r: String)
        ensures
            self is Validation ==> r@ == "Blog validation failed: every field must be non-empty"@,
            self is NotFound ==> r@ == "There is no blog with that id"@,
            self is Storage ==> r@ == "Storage failure"@,
    {
        match self {
            StoreError::Validation => String::from_str(
                "Blog validation failed: every field must be non-empty",
            ),
            StoreError::NotFound => String::from_str("There is no blog with that id"),
            StoreError::Storage => String::from_str("Storage failure"),
        }
    }
}

} // verus!
