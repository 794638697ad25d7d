//! Decimal rendering of dimensions, output file names, and the label a mask
//! set takes from its directory's path.

use vstd::arithmetic::div_mod::{lemma_div_decreases, lemma_div_nonincreasing};
use vstd::prelude::*;

verus! {

/// The character of one decimal digit.
pub open spec fn digit_char(d: int) -> char {
    if d == 0 {
        '0'
    } else if d == 1 {
        '1'
    } else if d == 2 {
        '2'
    } else if d == 3 {
        '3'
    } else if d == 4 {
        '4'
    } else if d == 5 {
        '5'
    } else if d == 6 {
        '6'
    } else if d == 7 {
        '7'
    } else if d == 8 {
        '8'
    } else {
        '9'
    }
}

/// The decimal form of a number, most significant digit first, no sign and
/// no leading zero (a single zero for 0).
pub open spec fn dec_digits(n: nat) -> Seq<char>
    decreases n,
    via dec_digits_decreases
{
    if n < 10 {
        seq![digit_char(n as int)]
    } else {
        dec_digits(n / 10).push(digit_char((n % 10) as int))
    }
}

#[via_fn]
proof fn dec_digits_decreases(n: nat) {
    if n >= 10 {
        lemma_div_decreases(n as int, 10);
    }
}

/// One digit as a string slice.
fn digit_str(d: u32) -> (r: &'static str)
    requires
        d < 10,
    ensures
        r@ == seq![digit_char(d as int)],
{
    proof {
        reveal_strlit("0");
        reveal_strlit("1");
        reveal_strlit("2");
        reveal_strlit("3");
        reveal_strlit("4");
        reveal_strlit("5");
        reveal_strlit("6");
        reveal_strlit("7");
        reveal_strlit("8");
        reveal_strlit("9");
        assert("0"@ =~= seq![digit_char(0)]);
        assert("1"@ =~= seq![digit_char(1)]);
        assert("2"@ =~= seq![digit_char(2)]);
        assert("3"@ =~= seq![digit_char(3)]);
        assert("4"@ =~= seq![digit_char(4)]);
        assert("5"@ =~= seq![digit_char(5)]);
        assert("6"@ =~= seq![digit_char(6)]);
        assert("7"@ =~= seq![digit_char(7)]);
        assert("8"@ =~= seq![digit_char(8)]);
        assert("9"@ =~= seq![digit_char(9)]);
    }
    match d {
        0 => "0",
        1 => "1",
        2 => "2",
        3 => "3",
        4 => "4",
        5 => "5",
        6 => "6",
        7 => "7",
        8 => "8",
        _ => "9",
    }
}

/// Render a dimension in decimal.
pub fn u32_to_string(n: u32) -> (s: String)
    ensures
        s@ == dec_digits(n as nat),
    decreases n,
{
    if n < 10 {
        String::from_str(digit_str(n))
    } else {
        proof {
            lemma_div_decreases(n as int, 10);
            lemma_div_nonincreasing(n as int, 10);
        }
        let mut s = u32_to_string(n / 10);
        s.append(digit_str(n % 10));
        proof {
            assert(s@ =~= dec_digits((n / 10) as nat).push(digit_char((n % 10) as int)));
        }
        s
    }
}

/// The name of one exported file: `<basename>_<width>x<height>.png`.
pub open spec fn export_name_spec(basename: Seq<char>, width: u32, height: u32) -> Seq<char> {
    basename + seq!['_'] + dec_digits(width as nat) + seq!['x'] + dec_digits(height as nat) + seq![
        '.',
        'p',
        'n',
        'g',
    ]
}

/// Build the name of one exported file from its label and dimensions.
pub fn render_export_name(basename: &String, width: u32, height: u32) -> (r: String)
    ensures
        r@ == export_name_spec(basename@, width, height),
{
    proof {
        reveal_strlit("_");
        reveal_strlit("x");
        reveal_strlit(".png");
    }
    let mut s = basename.clone();
    s.append("_");
    let w = u32_to_string(width);
    s.append(w.as_str());
    s.append("x");
    let h = u32_to_string(height);
    s.append(h.as_str());
    s.append(".png");
    proof {
        assert(s@ =~= export_name_spec(basename@, width, height));
    }
    s
}

/// The label of a path: what follows the last separator, or the whole path
/// when it has none. Empty when the path ends in a separator.
pub open spec fn basename_of(s: Seq<char>) -> Seq<char>
    decreases s.len(),
{
    if s.len() == 0 {
        Seq::empty()
    } else if s[s.len() - 1] == '/' {
        Seq::empty()
    } else {
        basename_of(s.drop_last()).push(s[s.len() - 1])
    }
}

/// The suffix of `s` that starts at `start` is its label, as long as no
/// separator sits at or after `start` and a separator (or the path's start)
/// sits just before it.
proof fn lemma_basename_suffix(s: Seq<char>, start: int)
    requires
        0 <= start <= s.len(),
        forall|i: int| start <= i < s.len() ==> s[i] != '/',
        start == 0 || s[start - 1] == '/',
    ensures
        basename_of(s) == s.subrange(start, s.len() as int),
    decreases s.len(),
{
    if s.len() == start {
        if start == 0 {
            assert(basename_of(s) =~= s.subrange(0, 0));
        } else {
            assert(s[s.len() - 1] == '/');
            assert(basename_of(s) =~= s.subrange(start, s.len() as int));
        }
    } else {
        assert(s[s.len() - 1] != '/');
        lemma_basename_suffix(s.drop_last(), start);
        assert(s.drop_last() =~= s.subrange(0, s.len() - 1));
        assert(basename_of(s) == basename_of(s.drop_last()).push(s[s.len() - 1]));
        assert(basename_of(s.drop_last()) == s.drop_last().subrange(start, s.len() - 1));
        assert(basename_of(s) =~= s.subrange(start, s.len() as int));
    }
}

/// Derive a mask set's label from its directory path: the final path
/// component.
pub fn path_basename(path: &String) -> (r: String)
    ensures
        r@ == basename_of(path@),
{
    let n: usize = path.as_str().unicode_len();
    let mut start: usize = 0;
    let mut i: usize = 0;
    while i < n
        invariant
            i <= n,
            n == path@.len(),
            start <= i,
            forall|k: int| start <= k < i ==> path@[k] != '/',
            start == 0 || path@[start - 1] == '/',
        decreases n - i,
    {
        let c = path.as_str().get_char(i);
        if c == '/' {
            start = i + 1;
        }
        i = i + 1;
    }
    proof {
        lemma_basename_suffix(path@, start as int);
    }
    let tail = path.as_str().substring_char(start, n);
    String::from_str(tail)
}

} // verus!
