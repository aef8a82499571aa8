//! Command uuids and temporary ids for optimistic edits.
use vstd::prelude::*;
use vstd::string::*;

use crate::text::{decimal, push_decimal};

verus! {

pub open spec fn hex_char(d: int) -> char {
    if d < 10 {
        ((d + 48) as u8) as char
    } else {
        ((d - 10 + 97) as u8) as char
    }
}

/// The last `w` lowercase hex digits of `n`, zero padded.
pub open spec fn hex_fixed(n: nat, w: nat) -> Seq<char>
    decreases w,
{
    if w == 0 {
        Seq::empty()
    } else {
        hex_fixed(n / 16, (w - 1) as nat).push(hex_char((n % 16) as int))
    }
}

/// `{ns:08x}-{c:016x}-4000-8000-000000000000`.
pub open spec fn uuid_text(ns: u32, c: u64) -> Seq<char> {
    hex_fixed(ns as nat, 8) + "-"@ + hex_fixed(c as nat, 16) + "-4000-8000-000000000000"@
}

/// `tmp_{c}`.
pub open spec fn temp_id_text(c: u64) -> Seq<char> {
    "tmp_"@ + decimal(c as nat)
}

/// The counter after `c`, wrapping at the top like an atomic add.
pub open spec fn next_counter(c: u64) -> u64 {
    if c == u64::MAX {
        0
    } else {
        (c + 1) as u64
    }
}

pub fn bump_counter(c: u64) -> (r: u64)
    ensures
        r == next_counter(c),
{
    if c == u64::MAX {
        0
    } else {
        c + 1
    }
}

fn hex_digit_str(d: u64) -> (s: &'static str)
    requires
        d < 16,
    ensures
        s@ == seq![hex_char(d as int)],
{
    proof {
        reveal_strlit("0");
        reveal_strlit("1");
        reveal_strlit("2");
        reveal_strlit("3");
        reveal_strlit("4");
        reveal_strlit("5");
        reveal_strlit("6");
        reveal_strlit("7");
        reveal_strlit("8");
        reveal_strlit("9");
        reveal_strlit("a");
        reveal_strlit("b");
        reveal_strlit("c");
        reveal_strlit("d");
        reveal_strlit("e");
        reveal_strlit("f");
    }
    if d == 0 {
        "0"
    } else if d == 1 {
        "1"
    } else if d == 2 {
        "2"
    } else if d == 3 {
        "3"
    } else if d == 4 {
        "4"
    } else if d == 5 {
        "5"
    } else if d == 6 {
        "6"
    } else if d == 7 {
        "7"
    } else if d == 8 {
        "8"
    } else if d == 9 {
        "9"
    } else if d == 10 {
        "a"
    } else if d == 11 {
        "b"
    } else if d == 12 {
        "c"
    } else if d == 13 {
        "d"
    } else if d == 14 {
        "e"
    } else {
        "f"
    }
}

/// Appends the last `w` hex digits of `n`.
pub fn push_hex_fixed(out: &mut String, n: u64, w: u64)
    ensures
        final(out)@ == old(out)@ + hex_fixed(n as nat, w as nat),
    decreases w,
{
    if w == 0 {
        assert(final(out)@ =~= old(out)@ + hex_fixed(n as nat, w as nat));
        return;
    }
    push_hex_fixed(out, n / 16, w - 1);
    let d = hex_digit_str(n % 16);
    out.append(d);
    assert(final(out)@ =~= old(out)@ + hex_fixed(n as nat, w as nat));
}

/// The uuid for counter value `c` at sub-second nanos `ns`.
pub fn uuid_for(ns: u32, c: u64) -> (s: String)
    ensures
        s@ == uuid_text(ns, c),
{
    let mut s = String::new();
    push_hex_fixed(&mut s, ns as u64, 8);
    s.append("-");
    push_hex_fixed(&mut s, c, 16);
    s.append("-4000-8000-000000000000");
    s
}

/// The temporary id for counter value `c`.
pub fn temp_id_for(c: u64) -> (s: String)
    ensures
        s@ == temp_id_text(c),
{
    let mut s = String::from_str("tmp_");
    push_decimal(&mut s, c);
    s
}

/// Sub-second nanoseconds of `chrono::Utc::now()`; depends on the clock,
/// nothing is promised of it.
#[verifier::external_body]
pub(crate) fn clock_subsec_nanos() -> u32 {
    chrono::Utc::now().timestamp_subsec_nanos()
}

/// Milliseconds since the Unix epoch from `chrono::Utc::now()`; depends on
/// the clock, nothing is promised of it.
#[verifier::external_body]
pub(crate) fn clock_millis() -> i64 {
    chrono::Utc::now().timestamp_millis()
}

/// The current time in milliseconds: the clock's reading in milliseconds
/// since the epoch, or zero for a reading before the epoch, so it never
/// exceeds `i64::MAX`.
pub fn now_ms() -> (r: u64)
    ensures
        r <= i64::MAX,
{
    let t = clock_millis();
    if t < 0 {
        0
    } else {
        t as u64
    }
}

} // verus!
