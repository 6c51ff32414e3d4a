use vstd::prelude::*;
use vstd::string::StringExecFns;

verus! {

pub open spec fn digit_char(d: nat) -> char {
    if d == 0 {
        '0'
    } else if d == 1 {
        '1'
    } else if d == 2 {
        '2'
    } else if d == 3 {
        '3'
    } else if d == 4 {
        '4'
    } else if d == 5 {
        '5'
    } else if d == 6 {
        '6'
    } else if d == 7 {
        '7'
    } else if d == 8 {
        '8'
    } else {
        '9'
    }
}

/// The decimal digits of `n`, most significant first, without leading zeros.
pub open spec fn decimal(n: nat) -> Seq<char>
    decreases n,
{
    if n < 10 {
        seq![digit_char(n)]
    } else {
        decimal(n / 10).push(digit_char(n % 10))
    }
}

fn digit_str(d: u128) -> (r: &'static str)
    requires
        d < 10,
    ensures
        r@ == seq![digit_char(d as nat)],
{
    if d == 0 {
        proof { reveal_strlit("0"); }
        "0"
    } else if d == 1 {
        proof { reveal_strlit("1"); }
        "1"
    } else if d == 2 {
        proof { reveal_strlit("2"); }
        "2"
    } else if d == 3 {
        proof { reveal_strlit("3"); }
        "3"
    } else if d == 4 {
        proof { reveal_strlit("4"); }
        "4"
    } else if d == 5 {
        proof { reveal_strlit("5"); }
        "5"
    } else if d == 6 {
        proof { reveal_strlit("6"); }
        "6"
    } else if d == 7 {
        proof { reveal_strlit("7"); }
        "7"
    } else if d == 8 {
        proof { reveal_strlit("8"); }
        "8"
    } else {
        proof { reveal_strlit("9"); }
        "9"
    }
}

/// Appends the decimal digits of `n` to `out`.
fn push_decimal(out: &mut String, n: u128)
    ensures
        final(out)@ == old(out)@ + decimal(n as nat),
    decreases n,
{
    if n < 10 {
        out.append(digit_str(n));
    } else {
        push_decimal(out, n / 10);
        out.append(digit_str(n % 10));
        assert(out@ =~= old(out)@ + decimal(n as nat));
    }
}

fn format_key(bucket: u128, millis: u128, suffix: &String) -> (r: String)
    ensures
        r@ == decimal(bucket as nat) + seq!['/'] + decimal(millis as nat) + seq!['-'] + suffix@,
{
    let mut r = String::new();
    push_decimal(&mut r, bucket);
    proof { reveal_strlit("/"); }
    r.append("/");
    push_decimal(&mut r, millis);
    proof { reveal_strlit("-"); }
    r.append("-");
    r.append(suffix.as_str());
    assert(r@ =~= decimal(bucket as nat) + seq!['/'] + decimal(millis as nat) + seq!['-'] + suffix@);
    r
}

/// The length of a time bucket, applied to a clock reading in milliseconds:
/// 86400 ms, so a bucket spans 86.4 seconds.
pub const BUCKET: u128 = 86400;

pub open spec fn bucket_of(millis: u128) -> u128 {
    (millis - millis % BUCKET) as u128
}

/// The storage key for an artifact emitted at `cur_ms` with the unique
/// `suffix`: the time bucket, then the time, then the suffix.
pub fn object_key(cur_ms: u128, suffix: &String) -> (r: String)
    ensures
        r@ == decimal(bucket_of(cur_ms) as nat) + seq!['/'] + decimal(cur_ms as nat) + seq!['-']
            + suffix@,
{
    let cur_day = cur_ms - cur_ms % BUCKET;
    format_key(cur_day, cur_ms, suffix)
}

} // verus!
