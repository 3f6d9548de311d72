use vstd::prelude::*;
use vstd::string::StringExecFns;
use base64::Engine;

verus! {

/// The character for the decimal digit `d`.
pub open spec fn dec_digit(d: int) -> char {
    if d == 0 {
        '0'
    } else if d == 1 {
        '1'
    } else if d == 2 {
        '2'
    } else if d == 3 {
        '3'
    } else if d == 4 {
        '4'
    } else if d == 5 {
        '5'
    } else if d == 6 {
        '6'
    } else if d == 7 {
        '7'
    } else if d == 8 {
        '8'
    } else {
        '9'
    }
}

/// The decimal digits of `n`, most significant first.
pub open spec fn dec_str(n: nat) -> Seq<char>
    decreases n,
{
    if n < 10 {
        seq![dec_digit(n as int)]
    } else {
        dec_str(n / 10).push(dec_digit((n % 10) as int))
    }
}

/// The text an id is derived from: the actor identity, an underscore,
/// and the decimal block time.
pub open spec fn raw_id(addr: Seq<char>, time: nat) -> Seq<char> {
    addr + seq!['_'] + dec_str(time)
}

/// The base64 encoding (standard alphabet, no padding) of the UTF-8
/// bytes of a string.
pub uninterp spec fn base64_of(s: Seq<char>) -> Seq<char>;

/// The id derived for an actor identity at a block time.
pub open spec fn spec_id(addr: Seq<char>, time: nat) -> Seq<char> {
    base64_of(raw_id(addr, time))
}

/// Relies on the `base64` crate: `Engine::encode` with the
/// `STANDARD_NO_PAD` engine returns the padding-free standard-alphabet
/// base64 encoding of the input bytes, a function of those bytes alone.
#[verifier::external_body]
fn encode_base64(s: &str) -> (r: String)
    ensures
        r@ == base64_of(s@),
{
    base64::engine::general_purpose::STANDARD_NO_PAD.encode(s.as_bytes())
}

/// The one-character string for the decimal digit `d`.
fn digit_str(d: u64) -> (r: &'static str)
    requires
        d < 10,
    ensures
        r@ == seq![dec_digit(d as int)],
{
    proof {
        reveal_strlit("0");
        reveal_strlit("1");
        reveal_strlit("2");
        reveal_strlit("3");
        reveal_strlit("4");
        reveal_strlit("5");
        reveal_strlit("6");
        reveal_strlit("7");
        reveal_strlit("8");
        reveal_strlit("9");
    }
    if d == 0 {
        "0"
    } else if d == 1 {
        "1"
    } else if d == 2 {
        "2"
    } else if d == 3 {
        "3"
    } else if d == 4 {
        "4"
    } else if d == 5 {
        "5"
    } else if d == 6 {
        "6"
    } else if d == 7 {
        "7"
    } else if d == 8 {
        "8"
    } else {
        "9"
    }
}

/// Formats `n` in decimal.
fn u64_to_dec(n: u64) -> (r: String)
    ensures
        r@ == dec_str(n as nat),
    decreases n,
{
    if n < 10 {
        let r = digit_str(n).to_owned();
        r
    } else {
        let mut s = u64_to_dec(n / 10);
        s.append(digit_str(n % 10));
        proof {
            assert(s@ =~= dec_str(n as nat));
        }
        s
    }
}

/// Derives the id for a new entity from the creating actor's identity
/// and the current block time: the identity, a separator, and the time,
/// put through a reversible text encoding. Two calls by the same actor
/// at the same recorded time collide.
pub fn generate_id(id: &String, time: u64) -> (r: String)
    ensures
        r@ == spec_id(id@, time as nat),
{
    let mut raw = id.clone();
    raw.append("_");
    let ts = u64_to_dec(time);
    raw.append(ts.as_str());
    proof {
        reveal_strlit("_");
        assert(raw@ =~= raw_id(id@, time as nat));
    }
    encode_base64(raw.as_str())
}

} // verus!
