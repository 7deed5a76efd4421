//! Small verified text-building helpers: decimal rendering, padding,
//! centering and trailing-whitespace trimming used by the report formatter.

use vstd::prelude::*;
use vstd::string::StrSliceExecFns;
use vstd::string::StringExecFns;

verus! {

/// Relies on `String::push`: appends exactly the given character.
#[verifier::external_body]
pub fn push_char(s: &mut String, c: char)
    ensures
        final(s)@ == old(s)@.push(c),
{
    s.push(c);
}

pub open spec fn spec_digit(d: int) -> Seq<char>
    recommends
        0 <= d < 10,
{
    if d == 0 {
        "0"@
    } else if d == 1 {
        "1"@
    } else if d == 2 {
        "2"@
    } else if d == 3 {
        "3"@
    } else if d == 4 {
        "4"@
    } else if d == 5 {
        "5"@
    } else if d == 6 {
        "6"@
    } else if d == 7 {
        "7"@
    } else if d == 8 {
        "8"@
    } else {
        "9"@
    }
}

/// Decimal digits of a non-negative number, most significant first.
pub open spec fn spec_dec_nat(n: int) -> Seq<char>
    recommends
        n >= 0,
    decreases n,
{
    if n < 10 {
        spec_digit(n)
    } else {
        spec_dec_nat(n / 10) + spec_digit(n % 10)
    }
}

/// Decimal rendering of a possibly negative number, with a leading minus sign.
pub open spec fn spec_dec_signed(n: int) -> Seq<char> {
    if n < 0 {
        "-"@ + spec_dec_nat(-n)
    } else {
        spec_dec_nat(n)
    }
}

fn digit_str(d: u64) -> (r: String)
    requires
        d < 10,
    ensures
        r@ == spec_digit(d as int),
{
    match d {
        0 => String::from_str("0"),
        1 => String::from_str("1"),
        2 => String::from_str("2"),
        3 => String::from_str("3"),
        4 => String::from_str("4"),
        5 => String::from_str("5"),
        6 => String::from_str("6"),
        7 => String::from_str("7"),
        8 => String::from_str("8"),
        _ => String::from_str("9"),
    }
}

pub fn u64_dec(n: u64) -> (r: String)
    ensures
        r@ == spec_dec_nat(n as int),
    decreases n,
{
    if n < 10 {
        digit_str(n)
    } else {
        let mut r = u64_dec(n / 10);
        let d = digit_str(n % 10);
        r.append(d.as_str());
        r
    }
}

/// The sequence of `n` space characters.
pub open spec fn spaces(n: nat) -> Seq<char>
    decreases n,
{
    if n == 0 {
        Seq::empty()
    } else {
        spaces((n - 1) as nat).push(' ')
    }
}

/// Left-aligned field of width `w`: the text, then spaces up to the width.
pub open spec fn spec_pad_right(s: Seq<char>, w: nat) -> Seq<char> {
    if s.len() >= w {
        s
    } else {
        s + spaces((w - s.len()) as nat)
    }
}

/// Zero-padding on the left to a width of two, as `{:0>2}` renders it.
pub open spec fn spec_zero_pad2(s: Seq<char>) -> Seq<char> {
    if s.len() >= 2 {
        s
    } else if s.len() == 1 {
        "0"@ + s
    } else {
        "00"@
    }
}

/// Space-padding on the left to a width of two, as `{: >2}` renders it.
pub open spec fn spec_space_pad2(s: Seq<char>) -> Seq<char> {
    if s.len() >= 2 {
        s
    } else if s.len() == 1 {
        " "@ + s
    } else {
        "  "@
    }
}

/// Centered field of width `w`; an odd leftover space goes to the right,
/// as `{:^w}` renders it.
pub open spec fn spec_center(s: Seq<char>, w: nat) -> Seq<char> {
    if s.len() >= w {
        s
    } else {
        let left = ((w - s.len()) as nat) / 2;
        spaces(left) + s + spaces((w - s.len() - left) as nat)
    }
}

pub open spec fn is_trailing_ws(c: char) -> bool {
    c == ' ' || c == '\t' || c == '\n' || c == '\r'
}

/// The text with every trailing whitespace character removed.
pub open spec fn spec_trim_end(s: Seq<char>) -> Seq<char>
    decreases s.len(),
{
    if s.len() > 0 && is_trailing_ws(s.last()) {
        spec_trim_end(s.drop_last())
    } else {
        s
    }
}

fn space_string(n: usize) -> (r: String)
    ensures
        r@ == spaces(n as nat),
{
    let mut r = String::new();
    let mut i: usize = 0;
    while i < n
        invariant
            i <= n,
            r@ == spaces(i as nat),
        decreases n - i,
    {
        push_char(&mut r, ' ');
        i = i + 1;
    }
    r
}

pub fn pad_right(s: &str, w: usize) -> (r: String)
    ensures
        r@ == spec_pad_right(s@, w as nat),
{
    let mut r = String::from_str(s);
    let mut n = s.unicode_len();
    proof {
        assert(r@ =~= s@ + spaces(0));
    }
    while n < w
        invariant
            s@.len() <= n,
            n <= w || n == s@.len(),
            r@ == s@ + spaces((n - s@.len()) as nat),
        decreases w - n,
    {
        push_char(&mut r, ' ');
        n = n + 1;
        proof {
            assert(r@ =~= s@ + spaces((n - s@.len()) as nat));
        }
    }
    proof {
        if s@.len() >= w as nat {
            assert(r@ =~= s@);
        }
        assert(r@ =~= spec_pad_right(s@, w as nat));
    }
    r
}

pub fn zero_pad2(s: &str) -> (r: String)
    ensures
        r@ == spec_zero_pad2(s@),
{
    let n = s.unicode_len();
    if n >= 2 {
        String::from_str(s)
    } else if n == 1 {
        let mut r = String::from_str("0");
        r.append(s);
        r
    } else {
        String::from_str("00")
    }
}

pub fn space_pad2(s: &str) -> (r: String)
    ensures
        r@ == spec_space_pad2(s@),
{
    let n = s.unicode_len();
    if n >= 2 {
        String::from_str(s)
    } else if n == 1 {
        let mut r = String::from_str(" ");
        r.append(s);
        r
    } else {
        String::from_str("  ")
    }
}

pub fn center(s: &str, w: usize) -> (r: String)
    ensures
        r@ == spec_center(s@, w as nat),
{
    let n = s.unicode_len();
    if n >= w {
        String::from_str(s)
    } else {
        let left = (w - n) / 2;
        let mut r = space_string(left);
        r.append(s);
        let right = space_string(w - n - left);
        r.append(right.as_str());
        proof {
            assert((left as nat) == ((w as nat - s@.len()) as nat) / 2);
            assert(r@ =~= spec_center(s@, w as nat));
        }
        r
    }
}

fn trimmed_len(s: &str, n: usize) -> (r: usize)
    requires
        n <= s@.len(),
    ensures
        r <= n,
        s@.subrange(0, r as int) == spec_trim_end(s@.subrange(0, n as int)),
    decreases n,
{
    if n == 0 {
        proof {
            assert(s@.subrange(0, 0) =~= Seq::<char>::empty());
        }
        0
    } else {
        let c = s.get_char(n - 1);
        proof {
            let cur = s@.subrange(0, n as int);
            assert(cur.last() == c);
            assert(cur.drop_last() =~= s@.subrange(0, n as int - 1));
        }
        if c == ' ' || c == '\t' || c == '\n' || c == '\r' {
            trimmed_len(s, n - 1)
        } else {
            n
        }
    }
}

pub fn trim_end_ws(s: &str) -> (r: String)
    ensures
        r@ == spec_trim_end(s@),
{
    let n = s.unicode_len();
    let k = trimmed_len(s, n);
    proof {
        assert(s@.subrange(0, s@.len() as int) =~= s@);
    }
    let t = s.substring_char(0, k);
    String::from_str(t)
}

} // verus!
