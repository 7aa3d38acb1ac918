//! Decimal rendering of integers, as ASCII bytes for the renderers and as
//! characters for error messages.

use vstd::prelude::*;

verus! {

/// The decimal digits of `n`, most significant first, as ASCII bytes.
pub open spec fn dec_bytes(n: nat) -> Seq<u8>
    decreases n,
{
    if n < 10 {
        seq![(48 + n) as u8]
    } else {
        dec_bytes(n / 10).push((48 + n % 10) as u8)
    }
}

/// The decimal digits of `n`, most significant first, as characters.
pub open spec fn dec_chars(n: nat) -> Seq<char>
    decreases n,
{
    if n < 10 {
        seq![digit_char(n)]
    } else {
        dec_chars(n / 10).push(digit_char(n % 10))
    }
}

/// The decimal rendering of a possibly negative number, as characters.
pub open spec fn dec_chars_signed(n: int) -> Seq<char> {
    if n < 0 {
        seq!['-'] + dec_chars((-n) as nat)
    } else {
        dec_chars(n as nat)
    }
}

/// The character for one decimal digit.
pub open spec fn digit_char(d: nat) -> char {
    if d == 0 {
        '0'
    } else if d == 1 {
        '1'
    } else if d == 2 {
        '2'
    } else if d == 3 {
        '3'
    } else if d == 4 {
        '4'
    } else if d == 5 {
        '5'
    } else if d == 6 {
        '6'
    } else if d == 7 {
        '7'
    } else if d == 8 {
        '8'
    } else {
        '9'
    }
}

/// `n` space bytes.
pub open spec fn spaces(n: nat) -> Seq<u8>
    decreases n,
{
    if n == 0 {
        Seq::empty()
    } else {
        spaces((n - 1) as nat).push(32u8)
    }
}

/// `n` tab bytes: one indentation unit per level.
pub open spec fn tabs(n: nat) -> Seq<u8>
    decreases n,
{
    if n == 0 {
        Seq::empty()
    } else {
        tabs((n - 1) as nat).push(9u8)
    }
}

/// The decimal digits of `n`, padded on the left with spaces to width four.
pub open spec fn dec_bytes_pad4(n: nat) -> Seq<u8> {
    if dec_bytes(n).len() >= 4 {
        dec_bytes(n)
    } else {
        spaces((4 - dec_bytes(n).len()) as nat) + dec_bytes(n)
    }
}

/// How many digits the decimal rendering of `n` has, for small `n`.
pub proof fn lemma_dec_bytes_len(n: nat)
    requires
        n < 1000,
    ensures
        n < 10 ==> dec_bytes(n).len() == 1,
        10 <= n < 100 ==> dec_bytes(n).len() == 2,
        100 <= n ==> dec_bytes(n).len() == 3,
    decreases n,
{
    if n >= 10 {
        lemma_dec_bytes_len(n / 10);
    }
}

/// Appends the decimal digits of `n` to `out`.
pub fn push_dec(out: &mut Vec<u8>, n: u64)
    ensures
        final(out)@ == old(out)@ + dec_bytes(n as nat),
    decreases n,
{
    if n < 10 {
        out.push(48 + n as u8);
        assert(out@ =~= old(out)@ + dec_bytes(n as nat));
    } else {
        push_dec(out, n / 10);
        out.push(48 + (n % 10) as u8);
        assert(out@ =~= old(out)@ + dec_bytes(n as nat));
    }
}

/// Appends `n` space bytes to `out`.
pub fn push_spaces(out: &mut Vec<u8>, n: usize)
    ensures
        final(out)@ == old(out)@ + spaces(n as nat),
    decreases n,
{
    if n > 0 {
        push_spaces(out, n - 1);
        out.push(32);
        assert(out@ =~= old(out)@ + spaces(n as nat));
    } else {
        assert(out@ =~= old(out)@ + spaces(0));
    }
}

/// Appends `n` tab bytes to `out`.
pub fn push_tabs(out: &mut Vec<u8>, n: usize)
    ensures
        final(out)@ == old(out)@ + tabs(n as nat),
    decreases n,
{
    if n > 0 {
        push_tabs(out, n - 1);
        out.push(9);
        assert(out@ =~= old(out)@ + tabs(n as nat));
    } else {
        assert(out@ =~= old(out)@ + tabs(0));
    }
}

/// Appends the decimal digits of `n`, left-padded with spaces to width four.
pub fn push_dec_pad4(out: &mut Vec<u8>, n: u64)
    requires
        n < 1000,
    ensures
        final(out)@ == old(out)@ + dec_bytes_pad4(n as nat),
{
    proof {
        lemma_dec_bytes_len(n as nat);
    }
    if n < 10 {
        push_spaces(out, 3);
    } else if n < 100 {
        push_spaces(out, 2);
    } else {
        push_spaces(out, 1);
    }
    push_dec(out, n);
    assert(out@ =~= old(out)@ + dec_bytes_pad4(n as nat));
}

/// Appends the character for one decimal digit to `s`.
fn append_digit(s: &mut String, d: u64)
    requires
        d < 10,
    ensures
        final(s)@ == old(s)@ + seq![digit_char(d as nat)],
{
    proof {
        reveal_strlit("0");
        reveal_strlit("1");
        reveal_strlit("2");
        reveal_strlit("3");
        reveal_strlit("4");
        reveal_strlit("5");
        reveal_strlit("6");
        reveal_strlit("7");
        reveal_strlit("8");
        reveal_strlit("9");
    }
    if d == 0 {
        s.append("0");
    } else if d == 1 {
        s.append("1");
    } else if d == 2 {
        s.append("2");
    } else if d == 3 {
        s.append("3");
    } else if d == 4 {
        s.append("4");
    } else if d == 5 {
        s.append("5");
    } else if d == 6 {
        s.append("6");
    } else if d == 7 {
        s.append("7");
    } else if d == 8 {
        s.append("8");
    } else {
        s.append("9");
    }
    assert(s@ =~= old(s)@ + seq![digit_char(d as nat)]);
}

/// Appends the decimal digits of `n` to `s`.
pub fn append_dec(s: &mut String, n: u64)
    ensures
        final(s)@ == old(s)@ + dec_chars(n as nat),
    decreases n,
{
    if n < 10 {
        append_digit(s, n);
        assert(s@ =~= old(s)@ + dec_chars(n as nat));
    } else {
        append_dec(s, n / 10);
        append_digit(s, n % 10);
        assert(s@ =~= old(s)@ + dec_chars(n as nat));
    }
}

/// Appends the decimal rendering of a possibly negative number to `s`.
pub fn append_dec_signed(s: &mut String, n: i64)
    requires
        -4294967296 <= n <= 4294967296,
    ensures
        final(s)@ == old(s)@ + dec_chars_signed(n as int),
{
    proof {
        reveal_strlit("-");
    }
    if n < 0 {
        s.append("-");
        append_dec(s, (-n) as u64);
        assert(s@ =~= old(s)@ + dec_chars_signed(n as int));
    } else {
        append_dec(s, n as u64);
    }
}

} // verus!
