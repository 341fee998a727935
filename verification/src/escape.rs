//! The byte-exact shape of the emitted text: unpadded decimal channel values,
//! 24-bit truecolor escape prefixes, and the reset escape, together with the
//! executable routines that append them to the output buffer.

use vstd::prelude::*;

use crate::pixel::Pixel;

verus! {

/// The decimal digit character for a value below ten.
pub open spec fn digit_char(d: int) -> char {
    if d == 0 {
        '0'
    } else if d == 1 {
        '1'
    } else if d == 2 {
        '2'
    } else if d == 3 {
        '3'
    } else if d == 4 {
        '4'
    } else if d == 5 {
        '5'
    } else if d == 6 {
        '6'
    } else if d == 7 {
        '7'
    } else if d == 8 {
        '8'
    } else {
        '9'
    }
}

/// The unpadded decimal rendering of a non-negative number, most significant
/// digit first.
pub open spec fn dec_seq(n: int) -> Seq<char>
    decreases n,
{
    if n < 10 {
        seq![digit_char(n)]
    } else {
        dec_seq(n / 10) + seq![digit_char(n % 10)]
    }
}

/// Whether a character is a decimal digit.
pub open spec fn is_digit(c: char) -> bool {
    c == '0' || c == '1' || c == '2' || c == '3' || c == '4' || c == '5' || c == '6' || c == '7'
        || c == '8' || c == '9'
}

/// Every character of a decimal rendering is a digit.
pub proof fn lemma_dec_seq_digits(n: int)
    ensures
        forall|j: int| 0 <= j < dec_seq(n).len() ==> is_digit(#[trigger] dec_seq(n)[j]),
    decreases n,
{
    if n < 10 {
        assert(dec_seq(n) == seq![digit_char(n)]);
    } else {
        lemma_dec_seq_digits(n / 10);
        assert forall|j: int| 0 <= j < dec_seq(n).len() implies is_digit(#[trigger] dec_seq(n)[j]) by {
            if j < dec_seq(n / 10).len() {
                assert(dec_seq(n)[j] == dec_seq(n / 10)[j]);
            } else {
                assert(dec_seq(n)[j] == digit_char(n % 10));
            }
        }
    }
}

/// The `R;G;B` parameter list of a truecolor escape, carrying a pixel's color
/// channels as unpadded decimals.
pub open spec fn rgb_params(p: Pixel) -> Seq<char> {
    dec_seq(p.r as int) + seq![';'] + dec_seq(p.g as int) + seq![';'] + dec_seq(p.b as int)
}

/// The escape prefix selecting a truecolor foreground: `ESC[38;2;R;G;Bm`.
pub open spec fn fg_prefix(fg: Pixel) -> Seq<char> {
    seq!['\u{1b}', '[', '3', '8', ';', '2', ';'] + rgb_params(fg) + seq!['m']
}

/// The escape prefix selecting a truecolor foreground and background in one
/// sequence: `ESC[38;2;R;G;B;48;2;R2;G2;B2m`.
pub open spec fn fg_bg_prefix(fg: Pixel, bg: Pixel) -> Seq<char> {
    seq!['\u{1b}', '[', '3', '8', ';', '2', ';'] + rgb_params(fg) + seq![';', '4', '8', ';', '2', ';']
        + rgb_params(bg) + seq!['m']
}

/// The reset escape `ESC[0m` that follows every colored glyph.
pub open spec fn reset_seq() -> Seq<char> {
    seq!['\u{1b}', '[', '0', 'm']
}

pub(crate) fn push_digit(s: &mut String, d: u8)
    requires
        d < 10,
    ensures
        final(s)@ == old(s)@ + seq![digit_char(d as int)],
{
    match d {
        0 => {
            s.append("0");
            proof {
                reveal_strlit("0");
                assert(final(s)@ =~= old(s)@ + seq![digit_char(0)]);
            }
        },
        1 => {
            s.append("1");
            proof {
                reveal_strlit("1");
                assert(final(s)@ =~= old(s)@ + seq![digit_char(1)]);
            }
        },
        2 => {
            s.append("2");
            proof {
                reveal_strlit("2");
                assert(final(s)@ =~= old(s)@ + seq![digit_char(2)]);
            }
        },
        3 => {
            s.append("3");
            proof {
                reveal_strlit("3");
                assert(final(s)@ =~= old(s)@ + seq![digit_char(3)]);
            }
        },
        4 => {
            s.append("4");
            proof {
                reveal_strlit("4");
                assert(final(s)@ =~= old(s)@ + seq![digit_char(4)]);
            }
        },
        5 => {
            s.append("5");
            proof {
                reveal_strlit("5");
                assert(final(s)@ =~= old(s)@ + seq![digit_char(5)]);
            }
        },
        6 => {
            s.append("6");
            proof {
                reveal_strlit("6");
                assert(final(s)@ =~= old(s)@ + seq![digit_char(6)]);
            }
        },
        7 => {
            s.append("7");
            proof {
                reveal_strlit("7");
                assert(final(s)@ =~= old(s)@ + seq![digit_char(7)]);
            }
        },
        8 => {
            s.append("8");
            proof {
                reveal_strlit("8");
                assert(final(s)@ =~= old(s)@ + seq![digit_char(8)]);
            }
        },
        _ => {
            s.append("9");
            proof {
                reveal_strlit("9");
                assert(final(s)@ =~= old(s)@ + seq![digit_char(9)]);
            }
        },
    }
}

pub(crate) fn push_decimal(s: &mut String, n: u8)
    ensures
        final(s)@ == old(s)@ + dec_seq(n as int),
{
    if n >= 100 {
        push_digit(s, n / 100);
    }
    if n >= 10 {
        push_digit(s, (n / 10) % 10);
    }
    push_digit(s, n % 10);
    proof {
        let ni = n as int;
        if ni >= 100 {
            vstd::arithmetic::div_mod::lemma_div_denominator(ni, 10, 10);
            assert(ni / 10 / 10 == ni / 100);
            assert(dec_seq(ni / 10) == dec_seq(ni / 10 / 10) + seq![digit_char((ni / 10) % 10)]);
            assert(dec_seq(ni / 10 / 10) == seq![digit_char(ni / 100)]);
            assert(final(s)@ =~= old(s)@ + dec_seq(ni));
        } else if ni >= 10 {
            assert((ni / 10) % 10 == ni / 10);
            assert(dec_seq(ni / 10) == seq![digit_char(ni / 10)]);
            assert(final(s)@ =~= old(s)@ + dec_seq(ni));
        } else {
            assert(ni % 10 == ni);
            assert(final(s)@ =~= old(s)@ + dec_seq(ni));
        }
    }
}

pub(crate) fn push_rgb(s: &mut String, p: Pixel)
    ensures
        final(s)@ == old(s)@ + rgb_params(p),
{
    push_decimal(s, p.r);
    s.append(";");
    push_decimal(s, p.g);
    s.append(";");
    push_decimal(s, p.b);
    proof {
        reveal_strlit(";");
        assert(";"@ =~= seq![';']);
        assert(final(s)@ =~= old(s)@ + rgb_params(p));
    }
}

pub(crate) fn push_fg_prefix(s: &mut String, fg: Pixel)
    ensures
        final(s)@ == old(s)@ + fg_prefix(fg),
{
    s.append("\u{1b}[38;2;");
    push_rgb(s, fg);
    s.append("m");
    proof {
        reveal_strlit("\u{1b}[38;2;");
        reveal_strlit("m");
        assert("\u{1b}[38;2;"@ =~= seq!['\u{1b}', '[', '3', '8', ';', '2', ';']);
        assert("m"@ =~= seq!['m']);
        assert(final(s)@ =~= old(s)@ + fg_prefix(fg));
    }
}

pub(crate) fn push_fg_bg_prefix(s: &mut String, fg: Pixel, bg: Pixel)
    ensures
        final(s)@ == old(s)@ + fg_bg_prefix(fg, bg),
{
    s.append("\u{1b}[38;2;");
    push_rgb(s, fg);
    s.append(";48;2;");
    push_rgb(s, bg);
    s.append("m");
    proof {
        reveal_strlit("\u{1b}[38;2;");
        reveal_strlit(";48;2;");
        reveal_strlit("m");
        assert("\u{1b}[38;2;"@ =~= seq!['\u{1b}', '[', '3', '8', ';', '2', ';']);
        assert(";48;2;"@ =~= seq![';', '4', '8', ';', '2', ';']);
        assert("m"@ =~= seq!['m']);
        assert(final(s)@ =~= old(s)@ + fg_bg_prefix(fg, bg));
    }
}

pub(crate) fn push_reset(s: &mut String)
    ensures
        final(s)@ == old(s)@ + reset_seq(),
{
    s.append("\u{1b}[0m");
    proof {
        reveal_strlit("\u{1b}[0m");
        assert("\u{1b}[0m"@ =~= reset_seq());
    }
}

} // verus!
