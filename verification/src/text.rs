//! Decimal rendering of numbers and of dates.
//!
//! The display form of a date is `Y-m-d`: the year left-justified in a
//! field of four characters, month and day zero-padded to two.
use vstd::prelude::*;

verus! {

use vstd::string::StringExecFns;

/// The decimal digit character for `n` (0 to 9).
pub open spec fn digit_char(n: int) -> char {
    if n == 0 {
        '0'
    } else if n == 1 {
        '1'
    } else if n == 2 {
        '2'
    } else if n == 3 {
        '3'
    } else if n == 4 {
        '4'
    } else if n == 5 {
        '5'
    } else if n == 6 {
        '6'
    } else if n == 7 {
        '7'
    } else if n == 8 {
        '8'
    } else {
        '9'
    }
}

/// Decimal digits of a non-negative number, most significant first.
pub open spec fn dec_digits(n: int) -> Seq<char>
    decreases n,
{
    if n < 10 {
        seq![digit_char(n)]
    } else {
        dec_digits(n / 10).push(digit_char(n % 10))
    }
}

/// Decimal rendering of any integer, with a leading minus sign when
/// negative.
pub open spec fn dec_int(n: int) -> Seq<char> {
    if n < 0 {
        seq!['-'] + dec_digits(-n)
    } else {
        dec_digits(n)
    }
}

/// A number zero-padded to at least two digits.
pub open spec fn pad2(n: int) -> Seq<char> {
    if 0 <= n < 10 {
        seq!['0'] + dec_digits(n)
    } else {
        dec_int(n)
    }
}

/// A year zero-padded to four digits (for `0 <= y <= 9999`).
pub open spec fn pad4(n: int) -> Seq<char> {
    if n < 10 {
        seq!['0', '0', '0'] + dec_digits(n)
    } else if n < 100 {
        seq!['0', '0'] + dec_digits(n)
    } else if n < 1000 {
        seq!['0'] + dec_digits(n)
    } else {
        dec_digits(n)
    }
}

/// A number left-justified in a field of four characters, padded with
/// spaces on the right when shorter.
pub open spec fn left4(n: int) -> Seq<char> {
    let s = dec_int(n);
    if s.len() >= 4 {
        s
    } else {
        s + Seq::new((4 - s.len()) as nat, |i: int| ' ')
    }
}

/// The display form of a date: `Y-m-d` with the year left-justified in
/// four characters and month and day zero-padded to two.
pub open spec fn date_display(y: int, m: int, d: int) -> Seq<char> {
    left4(y) + seq!['-'] + pad2(m) + seq!['-'] + pad2(d)
}

/// The canonical, fully zero-padded form of a date with the given
/// separator: `YYYY?MM?DD`.
pub open spec fn date_canon(y: int, m: int, d: int, sep: char) -> Seq<char> {
    pad4(y) + seq![sep] + pad2(m) + seq![sep] + pad2(d)
}

/// Whether `c` is an ASCII letter.
pub open spec fn is_ascii_letter(c: char) -> bool {
    ('a' <= c && c <= 'z') || ('A' <= c && c <= 'Z')
}

/// Whether the text contains an ASCII letter anywhere. No date string
/// does, so such text can never parse as a date.
pub open spec fn has_letter(s: Seq<char>) -> bool {
    exists|i: int| 0 <= i < s.len() && is_ascii_letter(s[i])
}

/// A letter in the first part of a concatenation is a letter in the
/// whole.
pub proof fn lemma_has_letter_concat(a: Seq<char>, b: Seq<char>)
    requires
        has_letter(a),
    ensures
        has_letter(a + b),
{
    let i = choose|i: int| 0 <= i < a.len() && is_ascii_letter(a[i]);
    assert((a + b)[i] == a[i]);
    assert(0 <= i < (a + b).len() && is_ascii_letter((a + b)[i]));
}

/// How often the character `c` occurs in `s`.
pub open spec fn count_char(s: Seq<char>, c: char) -> int
    decreases s.len(),
{
    if s.len() == 0 {
        0
    } else {
        count_char(s.take(s.len() - 1), c) + if s[s.len() - 1] == c {
            1int
        } else {
            0int
        }
    }
}

/// Occurrences in a concatenation are the occurrences in the parts.
pub proof fn lemma_count_char_concat(a: Seq<char>, b: Seq<char>, c: char)
    ensures
        count_char(a + b, c) == count_char(a, c) + count_char(b, c),
    decreases b.len(),
{
    if b.len() == 0 {
        assert(a + b =~= a);
    } else {
        lemma_count_char_concat(a, b.take(b.len() - 1), c);
        assert((a + b).take((a + b).len() - 1) =~= a + b.take(b.len() - 1));
        assert((a + b)[(a + b).len() - 1] == b[b.len() - 1]);
    }
}

/// Decimal digits never contain a hyphen.
pub proof fn lemma_digits_no_hyphen(n: int)
    requires
        n >= 0,
    ensures
        count_char(dec_digits(n), '-') == 0,
    decreases n,
{
    let s = dec_digits(n);
    if n < 10 {
        assert(s.take(s.len() - 1) =~= Seq::<char>::empty());
        assert(count_char(Seq::<char>::empty(), '-') == 0);
        assert(count_char(s, '-') == count_char(s.take(s.len() - 1), '-') + if s[s.len() - 1]
            == '-' {
            1int
        } else {
            0int
        });
    } else {
        lemma_digits_no_hyphen(n / 10);
        assert(s.take(s.len() - 1) =~= dec_digits(n / 10));
        assert(count_char(s, '-') == count_char(s.take(s.len() - 1), '-') + if s[s.len() - 1]
            == '-' {
            1int
        } else {
            0int
        });
    }
}

/// A zero-padded two-digit field never contains a hyphen.
pub proof fn lemma_pad2_no_hyphen(n: int)
    requires
        n >= 0,
    ensures
        count_char(pad2(n), '-') == 0,
{
    lemma_digits_no_hyphen(n);
    if 0 <= n < 10 {
        lemma_count_char_concat(seq!['0'], dec_digits(n), '-');
        let z = seq!['0'];
        assert(z.take(z.len() - 1) =~= Seq::<char>::empty());
        assert(count_char(Seq::<char>::empty(), '-') == 0);
        assert(count_char(z, '-') == count_char(z.take(z.len() - 1), '-') + if z[z.len() - 1]
            == '-' {
            1int
        } else {
            0int
        });
    }
}

/// How many digits the decimal rendering of `n` has, for `n < 10000`.
pub proof fn lemma_dec_digits_len(n: int)
    requires
        0 <= n < 10000,
    ensures
        dec_digits(n).len() == if n < 10 {
            1int
        } else if n < 100 {
            2int
        } else if n < 1000 {
            3int
        } else {
            4int
        },
    decreases n,
{
    if n >= 10 {
        lemma_dec_digits_len(n / 10);
    }
}

/// Lower bounds on the digit count of large numbers.
pub proof fn lemma_dec_digits_len_lower(n: int)
    requires
        n >= 0,
    ensures
        dec_digits(n).len() >= 1,
        n >= 10 ==> dec_digits(n).len() >= 2,
        n >= 100 ==> dec_digits(n).len() >= 3,
        n >= 1000 ==> dec_digits(n).len() >= 4,
    decreases n,
{
    if n >= 10 {
        lemma_dec_digits_len_lower(n / 10);
    }
}

/// For four-digit years the display form of a date coincides with its
/// canonical hyphen-separated form.
pub proof fn lemma_display_is_canon(y: int, m: int, d: int)
    requires
        1000 <= y <= 9999,
    ensures
        date_display(y, m, d) == date_canon(y, m, d, '-'),
{
    lemma_dec_digits_len(y);
}

/// Appends the single decimal digit `n` to `s`.
fn push_digit(s: &mut String, n: u32)
    requires
        n < 10,
    ensures
        final(s)@ == old(s)@ + seq![digit_char(n as int)],
{
    let t: &'static str = if n == 0 {
        "0"
    } else if n == 1 {
        "1"
    } else if n == 2 {
        "2"
    } else if n == 3 {
        "3"
    } else if n == 4 {
        "4"
    } else if n == 5 {
        "5"
    } else if n == 6 {
        "6"
    } else if n == 7 {
        "7"
    } else if n == 8 {
        "8"
    } else {
        "9"
    };
    proof {
        reveal_strlit("0");
        reveal_strlit("1");
        reveal_strlit("2");
        reveal_strlit("3");
        reveal_strlit("4");
        reveal_strlit("5");
        reveal_strlit("6");
        reveal_strlit("7");
        reveal_strlit("8");
        reveal_strlit("9");
        assert(t@ =~= seq![digit_char(n as int)]);
    }
    s.append(t);
}

/// Appends the decimal rendering of `n` to `s`.
fn push_u64_dec(s: &mut String, n: u64)
    ensures
        final(s)@ == old(s)@ + dec_digits(n as int),
    decreases n,
{
    if n >= 10 {
        push_u64_dec(s, n / 10);
    }
    push_digit(s, (n % 10) as u32);
    proof {
        assert(s@ =~= old(s)@ + dec_digits(n as int));
    }
}

/// Appends the decimal rendering of `n`, sign included, to `s`.
pub(crate) fn push_i64_dec(s: &mut String, n: i64)
    ensures
        final(s)@ == old(s)@ + dec_int(n as int),
{
    if n < 0 {
        let t: &'static str = "-";
        proof {
            reveal_strlit("-");
            assert(t@ =~= seq!['-']);
        }
        s.append(t);
        push_u64_dec(s, (0 - (n as i128)) as u64);
        proof {
            assert(s@ =~= old(s)@ + dec_int(n as int));
        }
    } else {
        push_u64_dec(s, n as u64);
    }
}

/// Appends `n` zero-padded to at least two digits.
fn push_pad2(s: &mut String, n: u32)
    ensures
        final(s)@ == old(s)@ + pad2(n as int),
{
    if n < 10 {
        let t: &'static str = "0";
        proof {
            reveal_strlit("0");
            assert(t@ =~= seq!['0']);
        }
        s.append(t);
    }
    push_u64_dec(s, n as u64);
    proof {
        assert(s@ =~= old(s)@ + pad2(n as int));
    }
}

/// Appends `n` left-justified in a field of four characters.
fn push_left4(s: &mut String, n: i64)
    ensures
        final(s)@ == old(s)@ + left4(n as int),
{
    push_i64_dec(s, n);
    let width: u32 = if 0 <= n && n < 10 {
        1
    } else if (0 <= n && n < 100) || (-10 < n && n < 0) {
        2
    } else if (0 <= n && n < 1000) || (-100 < n && n < 0) {
        3
    } else {
        4
    };
    proof {
        let mag: int = if n < 0 {
            -n as int
        } else {
            n as int
        };
        if mag < 10000 {
            lemma_dec_digits_len(mag);
        }
        lemma_dec_digits_len_lower(mag);
    }
    if width == 1 {
        let t: &'static str = "   ";
        proof {
            reveal_strlit("   ");
        }
        s.append(t);
        proof {
            assert(dec_int(n as int).len() == 1);
            assert(s@ =~= old(s)@ + left4(n as int));
        }
    } else if width == 2 {
        let t: &'static str = "  ";
        proof {
            reveal_strlit("  ");
        }
        s.append(t);
        proof {
            assert(dec_int(n as int).len() == 2);
            assert(s@ =~= old(s)@ + left4(n as int));
        }
    } else if width == 3 {
        let t: &'static str = " ";
        proof {
            reveal_strlit(" ");
        }
        s.append(t);
        proof {
            assert(dec_int(n as int).len() == 3);
            assert(s@ =~= old(s)@ + left4(n as int));
        }
    } else {
        proof {
            assert(dec_int(n as int).len() >= 4);
            assert(s@ =~= old(s)@ + left4(n as int));
        }
    }
}

/// Renders a date in its display form.
pub(crate) fn date_display_string(y: i32, m: u32, d: u32) -> (r: String)
    ensures
        r@ == date_display(y as int, m as int, d as int),
{
    let mut s = String::new();
    push_left4(&mut s, y as i64);
    let t: &'static str = "-";
    proof {
        reveal_strlit("-");
        assert(t@ =~= seq!['-']);
    }
    s.append(t);
    push_pad2(&mut s, m);
    s.append(t);
    push_pad2(&mut s, d);
    proof {
        assert(s@ =~= date_display(y as int, m as int, d as int));
    }
    s
}

} // verus!
