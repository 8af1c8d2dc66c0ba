//! Fixed-width text building blocks for the table renderer: padding,
//! separator rules, and decimal and boolean images.
use vstd::prelude::*;

verus! {

/// `n` spaces.
pub open spec fn space_seq(n: nat) -> Seq<char> {
    Seq::new(n, |i: int| ' ')
}

/// `n` dashes.
pub open spec fn dash_seq(n: nat) -> Seq<char> {
    Seq::new(n, |i: int| '-')
}

/// `s` padded on the right with spaces to width `w`; `s` itself when it is
/// already at least that wide.
pub open spec fn pad_right_spec(s: Seq<char>, w: nat) -> Seq<char> {
    if s.len() >= w {
        s
    } else {
        s + space_seq((w - s.len()) as nat)
    }
}

/// `s` padded on the left with spaces to width `w`; `s` itself when it is
/// already at least that wide.
pub open spec fn pad_left_spec(s: Seq<char>, w: nat) -> Seq<char> {
    if s.len() >= w {
        s
    } else {
        space_seq((w - s.len()) as nat) + s
    }
}

/// The decimal digit `d` as a character.
pub open spec fn digit_char(d: nat) -> char {
    if d == 0 {
        '0'
    } else if d == 1 {
        '1'
    } else if d == 2 {
        '2'
    } else if d == 3 {
        '3'
    } else if d == 4 {
        '4'
    } else if d == 5 {
        '5'
    } else if d == 6 {
        '6'
    } else if d == 7 {
        '7'
    } else if d == 8 {
        '8'
    } else {
        '9'
    }
}

/// The decimal image of `n`, most significant digit first, no leading zero
/// except for `n == 0`.
pub open spec fn dec_str(n: nat) -> Seq<char>
    decreases n,
{
    if n < 10 {
        seq![digit_char(n)]
    } else {
        dec_str(n / 10) + seq![digit_char(n % 10)]
    }
}

/// The textual image of a boolean.
pub open spec fn bool_seq(b: bool) -> Seq<char> {
    if b {
        "true"@
    } else {
        "false"@
    }
}

/// A string of `n` spaces.
pub fn make_spaces(n: usize) -> (r: String)
    ensures
        r@ == space_seq(n as nat),
{
    let mut r = String::new();
    let mut i: usize = 0;
    proof {
        assert(r@ =~= space_seq(0));
    }
    while i < n
        invariant
            0 <= i <= n,
            r@ == space_seq(i as nat),
        decreases n - i,
    {
        r.append(" ");
        proof {
            reveal_strlit(" ");
            assert(r@ =~= space_seq((i + 1) as nat));
        }
        i = i + 1;
    }
    r
}

/// A string of `n` dashes: the separator rule under a table header.
pub fn make_dashes(n: usize) -> (r: String)
    ensures
        r@ == dash_seq(n as nat),
{
    let mut r = String::new();
    let mut i: usize = 0;
    proof {
        assert(r@ =~= dash_seq(0));
    }
    while i < n
        invariant
            0 <= i <= n,
            r@ == dash_seq(i as nat),
        decreases n - i,
    {
        r.append("-");
        proof {
            reveal_strlit("-");
            assert(r@ =~= dash_seq((i + 1) as nat));
        }
        i = i + 1;
    }
    r
}

/// `s` padded on the right with spaces to width `w`.
pub fn pad_right(s: &str, w: usize) -> (r: String)
    ensures
        r@ == pad_right_spec(s@, w as nat),
{
    let l = s.unicode_len();
    if l >= w {
        String::from_str(s)
    } else {
        let sp = make_spaces(w - l);
        String::from_str(s).concat(sp.as_str())
    }
}

/// `s` padded on the left with spaces to width `w`.
pub fn pad_left(s: &str, w: usize) -> (r: String)
    ensures
        r@ == pad_left_spec(s@, w as nat),
{
    let l = s.unicode_len();
    if l >= w {
        String::from_str(s)
    } else {
        let sp = make_spaces(w - l);
        sp.concat(s)
    }
}

fn digit_string(d: u32) -> (r: String)
    requires
        d < 10,
    ensures
        r@ == seq![digit_char(d as nat)],
{
    let s: &str = if d == 0 {
        "0"
    } else if d == 1 {
        "1"
    } else if d == 2 {
        "2"
    } else if d == 3 {
        "3"
    } else if d == 4 {
        "4"
    } else if d == 5 {
        "5"
    } else if d == 6 {
        "6"
    } else if d == 7 {
        "7"
    } else if d == 8 {
        "8"
    } else {
        "9"
    };
    proof {
        reveal_strlit("0");
        reveal_strlit("1");
        reveal_strlit("2");
        reveal_strlit("3");
        reveal_strlit("4");
        reveal_strlit("5");
        reveal_strlit("6");
        reveal_strlit("7");
        reveal_strlit("8");
        reveal_strlit("9");
        assert(s@ =~= seq![digit_char(d as nat)]);
    }
    String::from_str(s)
}

/// The decimal image of `n`.
pub fn u32_dec(n: u32) -> (r: String)
    ensures
        r@ == dec_str(n as nat),
    decreases n,
{
    if n < 10 {
        digit_string(n)
    } else {
        assert(n / 10 < n);
        let hi = u32_dec(n / 10);
        let lo = digit_string(n % 10);
        hi.concat(lo.as_str())
    }
}

/// The textual image of a boolean.
pub fn bool_string(b: bool) -> (r: String)
    ensures
        r@ == bool_seq(b),
{
    if b {
        String::from_str("true")
    } else {
        String::from_str("false")
    }
}

} // verus!
