//! The textual command grammar.
//!
//! A command line is a sequence of space-separated tokens: a keyword,
//! optionally prefixed with `--`, followed by one value token where the
//! keyword takes one. Gap values are decimal pixel counts; split shares
//! and deltas are plain decimal fractions (`0.55`), read to ten-thousandth
//! precision. The spec functions here give the exact meaning of every
//! stage, and the executable parser is proved to match them.

use vstd::prelude::*;
use vstd::string::StrSliceExecFns;

use crate::user_cmd::empty_user_cmd;
use crate::user_cmd::UserCmd;
use crate::BSPLayoutError;
use crate::PERC_SCALE;

verus! {

/// Decimal digit?
pub open spec fn is_digit(c: char) -> bool {
    ('0' as u32) <= (c as u32) <= ('9' as u32)
}

/// The value of one decimal digit.
pub open spec fn digit_val(c: char) -> int {
    (c as u32) - ('0' as u32)
}

/// Every character is a decimal digit.
pub open spec fn all_digits(s: Seq<char>) -> bool {
    forall|i: int| 0 <= i < s.len() ==> is_digit(#[trigger] s[i])
}

/// The number a digit string denotes, most significant digit first.
pub open spec fn dec_val(s: Seq<char>) -> int
    decreases s.len(),
{
    if s.len() == 0 {
        0
    } else {
        dec_val(s.drop_last()) * 10 + digit_val(s.last())
    }
}

/// The value of a digit string is never negative.
pub proof fn lemma_dec_val_nonneg(s: Seq<char>)
    requires
        all_digits(s),
    ensures
        dec_val(s) >= 0,
    decreases s.len(),
{
    if s.len() > 0 {
        lemma_dec_val_nonneg(s.drop_last());
    }
}

/// Powers of ten.
pub open spec fn pow10(k: nat) -> int
    decreases k,
{
    if k == 0 {
        1
    } else {
        10 * pow10((k - 1) as nat)
    }
}

/// A digit string of length `k` denotes less than `10^k`.
pub proof fn lemma_dec_val_upper(s: Seq<char>)
    requires
        all_digits(s),
    ensures
        dec_val(s) < pow10(s.len()),
    decreases s.len(),
{
    if s.len() > 0 {
        lemma_dec_val_upper(s.drop_last());
    }
}

/// `v`, saturated at `cap`.
pub open spec fn capped(v: int, cap: int) -> int {
    if v >= cap {
        cap
    } else {
        v
    }
}

/// The index of the first occurrence of `c` in `s`, or `-1` if there is
/// none.
pub open spec fn find_char(s: Seq<char>, c: char) -> int
    decreases s.len(),
{
    if s.len() == 0 {
        -1
    } else if s[0] == c {
        0
    } else {
        let r = find_char(s.drop_first(), c);
        if r == -1 {
            -1
        } else {
            r + 1
        }
    }
}

/// `find_char` finds exactly the first occurrence.
pub proof fn lemma_find_char_at(s: Seq<char>, c: char, k: int)
    requires
        0 <= k < s.len(),
        s[k] == c,
        forall|m: int| 0 <= m < k ==> s[m] != c,
    ensures
        find_char(s, c) == k,
    decreases s.len(),
{
    if k > 0 {
        lemma_find_char_at(s.drop_first(), c, k - 1);
    }
}

/// `find_char` reports absence exactly when `c` does not occur.
pub proof fn lemma_find_char_none(s: Seq<char>, c: char)
    requires
        forall|m: int| 0 <= m < s.len() ==> s[m] != c,
    ensures
        find_char(s, c) == -1,
    decreases s.len(),
{
    if s.len() > 0 {
        lemma_find_char_none(s.drop_first(), c);
    }
}

/// Where `find_char` lands: absent, or a valid index.
pub proof fn lemma_find_char_range(s: Seq<char>, c: char)
    ensures
        find_char(s, c) == -1 || 0 <= find_char(s, c) < s.len(),
    decreases s.len(),
{
    if s.len() > 0 && s[0] != c {
        lemma_find_char_range(s.drop_first(), c);
    }
}

/// The tokens of `s` when cut at every occurrence of `c`, exactly as
/// `str::split` cuts: `n` separators yield `n + 1` tokens, empty tokens
/// included.
pub open spec fn split_on(s: Seq<char>, c: char) -> Seq<Seq<char>>
    decreases s.len(),
    via split_on_decreases
{
    let cut = find_char(s, c);
    if cut == -1 {
        seq![s]
    } else {
        seq![s.take(cut)] + split_on(s.skip(cut + 1), c)
    }
}

#[via_fn]
proof fn split_on_decreases(s: Seq<char>, c: char) {
    lemma_find_char_range(s, c);
}

/// Splitting yields at least one token.
pub proof fn lemma_split_on_nonempty(s: Seq<char>, c: char)
    ensures
        split_on(s, c).len() >= 1,
{
}

/// A token with its optional `--` flag prefix removed.
pub open spec fn strip_flag_dashes(t: Seq<char>) -> Seq<char> {
    if t.len() >= 2 && t[0] == '-' && t[1] == '-' {
        t.skip(2)
    } else {
        t
    }
}

/// The meaning of a gap value token: a non-empty digit string whose value
/// fits a `u32`. Anything else — empty, a sign, a stray character, a value
/// past `u32::MAX` — is malformed.
pub open spec fn parse_u32_digits(s: Seq<char>) -> Option<u32> {
    if s.len() >= 1 && all_digits(s) && dec_val(s) <= u32::MAX {
        Some(dec_val(s) as u32)
    } else {
        None
    }
}

/// The fractional digits of a share token, read to ten-thousandth
/// precision: digits past the fourth are truncated.
pub open spec fn frac_scaled(s: Seq<char>) -> int {
    let kept = if s.len() <= 4 {
        s
    } else {
        s.take(4)
    };
    dec_val(kept) * pow10((4 - kept.len()) as nat)
}

/// The meaning of a split-share or delta token: decimal digits with at
/// most one dot and at least one digit, denoting a non-negative fraction
/// in ten-thousandths. Values of one whole or more all saturate to
/// [`PERC_SCALE`], which every consumer treats alike. A sign, an exponent
/// or a second dot is malformed.
pub open spec fn parse_perc_chars(s: Seq<char>) -> Option<u32> {
    let dot = find_char(s, '.');
    if dot == -1 {
        if s.len() >= 1 && all_digits(s) {
            Some(capped(dec_val(s) * (PERC_SCALE as int), PERC_SCALE as int) as u32)
        } else {
            None
        }
    } else {
        let ip = s.take(dot);
        let fp = s.skip(dot + 1);
        if ip.len() + fp.len() >= 1 && all_digits(ip) && all_digits(fp) {
            Some(
                capped(dec_val(ip) * (PERC_SCALE as int) + frac_scaled(fp), PERC_SCALE as int)
                    as u32,
            )
        } else {
            None
        }
    }
}

/// The value of the digit string `t[from..to]`, saturated at `cap`, or
/// `None` on the first non-digit.
fn digits_value_capped(t: &Vec<char>, from: usize, to: usize, cap: u64) -> (r: Option<u64>)
    requires
        from <= to <= t@.len(),
        1 <= cap <= 0x1_0000_0000u64,
    ensures
        match r {
            Some(v) => all_digits(t@.subrange(from as int, to as int)) && v == capped(
                dec_val(t@.subrange(from as int, to as int)),
                cap as int,
            ),
            None => !all_digits(t@.subrange(from as int, to as int)),
        },
{
    let mut acc: u64 = 0;
    let mut i = from;
    while i < to
        invariant
            from <= i <= to <= t@.len(),
            1 <= cap <= 0x1_0000_0000u64,
            forall|k: int| from <= k < i ==> is_digit(#[trigger] t@[k]),
            acc == capped(dec_val(t@.subrange(from as int, i as int)), cap as int),
            acc <= cap,
        decreases to - i,
    {
        let cu = t[i] as u32;
        if cu < 48 || cu > 57 {
            proof {
                assert(t@.subrange(from as int, to as int)[i - from] == t@[i as int]);
            }
            return None;
        }
        proof {
            let pre = t@.subrange(from as int, i as int);
            let post = t@.subrange(from as int, i + 1);
            assert(post.drop_last() =~= pre);
            assert(post.last() == t@[i as int]);
            assert(all_digits(pre));
            lemma_dec_val_nonneg(pre);
        }
        acc = acc * 10 + ((cu - 48) as u64);
        if acc > cap {
            acc = cap;
        }
        i = i + 1;
    }
    proof {
        assert(t@.subrange(from as int, to as int) =~= t@.subrange(from as int, i as int));
    }
    Some(acc)
}

/// Parse a gap value token, exactly as [`parse_u32_digits`] describes.
fn parse_u32_token(t: &Vec<char>) -> (r: Option<u32>)
    ensures
        r == parse_u32_digits(t@),
{
    if t.len() == 0 {
        return None;
    }
    proof {
        assert(t@.subrange(0, t@.len() as int) =~= t@);
    }
    match digits_value_capped(t, 0, t.len(), 0x1_0000_0000u64) {
        None => None,
        Some(v) => {
            if v > 0xffff_ffffu64 {
                None
            } else {
                Some(v as u32)
            }
        },
    }
}

/// Parse a split-share or delta token, exactly as [`parse_perc_chars`]
/// describes.
fn parse_perc_token(t: &Vec<char>) -> (r: Option<u32>)
    ensures
        r == parse_perc_chars(t@),
{
    // Locate the first dot, if any.
    let mut dot: Option<usize> = None;
    let mut i: usize = 0;
    while i < t.len()
        invariant
            i <= t@.len(),
            match dot {
                Some(d) => d < i && t@[d as int] == '.' && forall|k: int|
                    0 <= k < d ==> t@[k] != '.',
                None => forall|k: int| 0 <= k < i ==> t@[k] != '.',
            },
        decreases t@.len() - i,
    {
        if t[i] == '.' && dot.is_none() {
            dot = Some(i);
        }
        i = i + 1;
    }
    match dot {
        None => {
            proof {
                lemma_find_char_none(t@, '.');
                assert(t@.subrange(0, t@.len() as int) =~= t@);
            }
            if t.len() == 0 {
                return None;
            }
            match digits_value_capped(t, 0, t.len(), PERC_SCALE as u64) {
                None => None,
                Some(v) => {
                    proof {
                        lemma_dec_val_nonneg(t@);
                        // Saturating the integer part saturates the scaled
                        // value too: any whole number of one or more maps to
                        // PERC_SCALE.
                        assert(capped(dec_val(t@) * (PERC_SCALE as int), PERC_SCALE as int)
                            == capped(v as int * (PERC_SCALE as int), PERC_SCALE as int));
                    }
                    if v >= 1 {
                        Some(PERC_SCALE)
                    } else {
                        Some(0)
                    }
                },
            }
        },
        Some(d) => {
            proof {
                lemma_find_char_at(t@, '.', d as int);
            }
            if t.len() < 2 {
                // Only the dot itself: no digit on either side.
                return None;
            }
            let ghost ip = t@.take(d as int);
            let ghost fp = t@.skip(d as int + 1);
            let int_part = match digits_value_capped(t, 0, d, PERC_SCALE as u64) {
                None => {
                    proof {
                        assert(t@.subrange(0, d as int) =~= ip);
                    }
                    return None;
                },
                Some(v) => v,
            };
            proof {
                assert(t@.subrange(0, d as int) =~= ip);
            }
            // Validate every fractional digit.
            let all_frac = digits_value_capped(t, d + 1, t.len(), PERC_SCALE as u64);
            proof {
                assert(t@.subrange(d as int + 1, t@.len() as int) =~= fp);
            }
            if all_frac.is_none() {
                return None;
            }
            // The first four fractional digits carry the value.
            let fend = if t.len() - (d + 1) <= 4 {
                t.len()
            } else {
                d + 5
            };
            let k = fend - (d + 1);
            let frac = match digits_value_capped(t, d + 1, fend, PERC_SCALE as u64) {
                None => {
                    proof {
                        assert(false);
                    }
                    return None;
                },
                Some(v) => v,
            };
            let ghost kept = if fp.len() <= 4 {
                fp
            } else {
                fp.take(4)
            };
            proof {
                assert(t@.subrange(d as int + 1, fend as int) =~= kept);
                lemma_dec_val_upper(kept);
                assert(pow10(0) == 1);
                assert(pow10(1) == 10);
                assert(pow10(2) == 100);
                assert(pow10(3) == 1000);
                assert(pow10(4) == 10000);
                assert(frac == dec_val(kept));
            }
            let scale: u64 = if k == 0 {
                10000
            } else if k == 1 {
                1000
            } else if k == 2 {
                100
            } else if k == 3 {
                10
            } else {
                1
            };
            proof {
                assert(scale == pow10((4 - kept.len()) as nat));
                assert(frac * scale == frac_scaled(fp)) by (nonlinear_arith)
                    requires
                        frac == dec_val(kept),
                        scale == pow10((4 - kept.len()) as nat),
                        frac_scaled(fp) == dec_val(kept) * pow10((4 - kept.len()) as nat),
                ;
                assert(frac * scale < 10000) by (nonlinear_arith)
                    requires
                        0 <= frac < pow10(kept.len() as nat),
                        scale == pow10((4 - kept.len()) as nat),
                        kept.len() <= 4,
                        pow10(0) == 1,
                        pow10(1) == 10,
                        pow10(2) == 100,
                        pow10(3) == 1000,
                        pow10(4) == 10000,
                ;
                lemma_dec_val_nonneg(ip);
                lemma_dec_val_nonneg(kept);
            }
            let scaled_frac: u64 = frac * scale;
            let value: u64 = int_part * (PERC_SCALE as u64) + scaled_frac;
            proof {
                assert(capped(
                    dec_val(ip) * (PERC_SCALE as int) + frac_scaled(fp),
                    PERC_SCALE as int,
                ) == capped(value as int, PERC_SCALE as int));
            }
            if value >= PERC_SCALE as u64 {
                Some(PERC_SCALE)
            } else {
                Some(value as u32)
            }
        },
    }
}

/// A split-share setting must lie strictly inside the open unit interval.
pub open spec fn valid_set_perc(t: Seq<char>) -> bool {
    match parse_perc_chars(t) {
        Some(v) => 0 < v < PERC_SCALE,
        None => false,
    }
}

/// A split-share delta must be positive.
pub open spec fn valid_delta(t: Seq<char>) -> bool {
    match parse_perc_chars(t) {
        Some(v) => v > 0,
        None => false,
    }
}

/// The meaning of a token sequence, folded onto the command gathered so
/// far: each keyword — `--` prefix optional — names a sub-effect and
/// consumes its value token if it takes one. An unknown keyword, a
/// malformed or out-of-range value, a missing value, or the same
/// sub-effect twice make the whole command meaningless.
pub open spec fn parse_cmd_tokens(toks: Seq<Seq<char>>, acc: UserCmd) -> Option<UserCmd>
    decreases toks.len(),
{
    if toks.len() == 0 {
        Some(acc)
    } else {
        let kw = strip_flag_dashes(toks[0]);
        if kw == "reverse"@ {
            if !acc.reverse {
                parse_cmd_tokens(toks.skip(1), UserCmd { reverse: true, ..acc })
            } else {
                None
            }
        } else if kw == "start-hsplit"@ {
            if !acc.start_hsplit {
                parse_cmd_tokens(toks.skip(1), UserCmd { start_hsplit: true, ..acc })
            } else {
                None
            }
        } else if kw == "start-vsplit"@ {
            if !acc.start_vsplit {
                parse_cmd_tokens(toks.skip(1), UserCmd { start_vsplit: true, ..acc })
            } else {
                None
            }
        } else if toks.len() < 2 {
            None
        } else if kw == "inner-gap"@ {
            if acc.default_inner_gap is None && parse_u32_digits(toks[1]) is Some {
                parse_cmd_tokens(
                    toks.skip(2),
                    UserCmd { default_inner_gap: parse_u32_digits(toks[1]), ..acc },
                )
            } else {
                None
            }
        } else if kw == "ig-left"@ {
            if acc.ig_left is None && parse_u32_digits(toks[1]) is Some {
                parse_cmd_tokens(toks.skip(2), UserCmd { ig_left: parse_u32_digits(toks[1]), ..acc })
            } else {
                None
            }
        } else if kw == "ig-right"@ {
            if acc.ig_right is None && parse_u32_digits(toks[1]) is Some {
                parse_cmd_tokens(
                    toks.skip(2),
                    UserCmd { ig_right: parse_u32_digits(toks[1]), ..acc },
                )
            } else {
                None
            }
        } else if kw == "ig-top"@ {
            if acc.ig_top is None && parse_u32_digits(toks[1]) is Some {
                parse_cmd_tokens(toks.skip(2), UserCmd { ig_top: parse_u32_digits(toks[1]), ..acc })
            } else {
                None
            }
        } else if kw == "ig-bottom"@ {
            if acc.ig_bottom is None && parse_u32_digits(toks[1]) is Some {
                parse_cmd_tokens(
                    toks.skip(2),
                    UserCmd { ig_bottom: parse_u32_digits(toks[1]), ..acc },
                )
            } else {
                None
            }
        } else if kw == "outer-gap"@ {
            if acc.default_outer_gap is None && parse_u32_digits(toks[1]) is Some {
                parse_cmd_tokens(
                    toks.skip(2),
                    UserCmd { default_outer_gap: parse_u32_digits(toks[1]), ..acc },
                )
            } else {
                None
            }
        } else if kw == "og-left"@ {
            if acc.og_left is None && parse_u32_digits(toks[1]) is Some {
                parse_cmd_tokens(toks.skip(2), UserCmd { og_left: parse_u32_digits(toks[1]), ..acc })
            } else {
                None
            }
        } else if kw == "og-right"@ {
            if acc.og_right is None && parse_u32_digits(toks[1]) is Some {
                parse_cmd_tokens(
                    toks.skip(2),
                    UserCmd { og_right: parse_u32_digits(toks[1]), ..acc },
                )
            } else {
                None
            }
        } else if kw == "og-top"@ {
            if acc.og_top is None && parse_u32_digits(toks[1]) is Some {
                parse_cmd_tokens(toks.skip(2), UserCmd { og_top: parse_u32_digits(toks[1]), ..acc })
            } else {
                None
            }
        } else if kw == "og-bottom"@ {
            if acc.og_bottom is None && parse_u32_digits(toks[1]) is Some {
                parse_cmd_tokens(
                    toks.skip(2),
                    UserCmd { og_bottom: parse_u32_digits(toks[1]), ..acc },
                )
            } else {
                None
            }
        } else if kw == "split-perc"@ {
            if acc.default_split_perc is None && valid_set_perc(toks[1]) {
                parse_cmd_tokens(
                    toks.skip(2),
                    UserCmd { default_split_perc: parse_perc_chars(toks[1]), ..acc },
                )
            } else {
                None
            }
        } else if kw == "vsplit-perc"@ {
            if acc.vsplit_perc is None && valid_set_perc(toks[1]) {
                parse_cmd_tokens(
                    toks.skip(2),
                    UserCmd { vsplit_perc: parse_perc_chars(toks[1]), ..acc },
                )
            } else {
                None
            }
        } else if kw == "hsplit-perc"@ {
            if acc.hsplit_perc is None && valid_set_perc(toks[1]) {
                parse_cmd_tokens(
                    toks.skip(2),
                    UserCmd { hsplit_perc: parse_perc_chars(toks[1]), ..acc },
                )
            } else {
                None
            }
        } else if kw == "inc-hsplit"@ || kw == "inc-hsplit-perc"@ {
            if acc.inc_hsplit is None && valid_delta(toks[1]) {
                parse_cmd_tokens(
                    toks.skip(2),
                    UserCmd { inc_hsplit: parse_perc_chars(toks[1]), ..acc },
                )
            } else {
                None
            }
        } else if kw == "inc-vsplit"@ || kw == "inc-vsplit-perc"@ {
            if acc.inc_vsplit is None && valid_delta(toks[1]) {
                parse_cmd_tokens(
                    toks.skip(2),
                    UserCmd { inc_vsplit: parse_perc_chars(toks[1]), ..acc },
                )
            } else {
                None
            }
        } else if kw == "dec-hsplit"@ || kw == "dec-hsplit-perc"@ {
            if acc.dec_hsplit is None && valid_delta(toks[1]) {
                parse_cmd_tokens(
                    toks.skip(2),
                    UserCmd { dec_hsplit: parse_perc_chars(toks[1]), ..acc },
                )
            } else {
                None
            }
        } else if kw == "dec-vsplit"@ || kw == "dec-vsplit-perc"@ {
            if acc.dec_vsplit is None && valid_delta(toks[1]) {
                parse_cmd_tokens(
                    toks.skip(2),
                    UserCmd { dec_vsplit: parse_perc_chars(toks[1]), ..acc },
                )
            } else {
                None
            }
        } else {
            None
        }
    }
}

/// The meaning of a whole command line.
pub open spec fn parse_cmdline(s: Seq<char>) -> Option<UserCmd> {
    parse_cmd_tokens(split_on(s, ' '), empty_user_cmd())
}

/// The grammar only ever installs in-range split-share settings: folding
/// tokens onto a command with valid settings yields a command with valid
/// settings.
pub proof fn lemma_parsed_set_percs_valid(toks: Seq<Seq<char>>, acc: UserCmd)
    requires
        parse_cmd_tokens(toks, acc) is Some,
        crate::user_cmd::cmd_set_percs_valid(acc),
    ensures
        crate::user_cmd::cmd_set_percs_valid(parse_cmd_tokens(toks, acc)->0),
    decreases toks.len(),
{
    if toks.len() == 0 {
    } else {
        let kw = strip_flag_dashes(toks[0]);
        if kw == "reverse"@ {
            lemma_parsed_set_percs_valid(toks.skip(1), UserCmd { reverse: true, ..acc });
        } else if kw == "start-hsplit"@ {
            lemma_parsed_set_percs_valid(toks.skip(1), UserCmd { start_hsplit: true, ..acc });
        } else if kw == "start-vsplit"@ {
            lemma_parsed_set_percs_valid(toks.skip(1), UserCmd { start_vsplit: true, ..acc });
        } else if toks.len() < 2 {
        } else if kw == "inner-gap"@ {
            lemma_parsed_set_percs_valid(
                toks.skip(2),
                UserCmd { default_inner_gap: parse_u32_digits(toks[1]), ..acc },
            );
        } else if kw == "ig-left"@ {
            lemma_parsed_set_percs_valid(
                toks.skip(2),
                UserCmd { ig_left: parse_u32_digits(toks[1]), ..acc },
            );
        } else if kw == "ig-right"@ {
            lemma_parsed_set_percs_valid(
                toks.skip(2),
                UserCmd { ig_right: parse_u32_digits(toks[1]), ..acc },
            );
        } else if kw == "ig-top"@ {
            lemma_parsed_set_percs_valid(
                toks.skip(2),
                UserCmd { ig_top: parse_u32_digits(toks[1]), ..acc },
            );
        } else if kw == "ig-bottom"@ {
            lemma_parsed_set_percs_valid(
                toks.skip(2),
                UserCmd { ig_bottom: parse_u32_digits(toks[1]), ..acc },
            );
        } else if kw == "outer-gap"@ {
            lemma_parsed_set_percs_valid(
                toks.skip(2),
                UserCmd { default_outer_gap: parse_u32_digits(toks[1]), ..acc },
            );
        } else if kw == "og-left"@ {
            lemma_parsed_set_percs_valid(
                toks.skip(2),
                UserCmd { og_left: parse_u32_digits(toks[1]), ..acc },
            );
        } else if kw == "og-right"@ {
            lemma_parsed_set_percs_valid(
                toks.skip(2),
                UserCmd { og_right: parse_u32_digits(toks[1]), ..acc },
            );
        } else if kw == "og-top"@ {
            lemma_parsed_set_percs_valid(
                toks.skip(2),
                UserCmd { og_top: parse_u32_digits(toks[1]), ..acc },
            );
        } else if kw == "og-bottom"@ {
            lemma_parsed_set_percs_valid(
                toks.skip(2),
                UserCmd { og_bottom: parse_u32_digits(toks[1]), ..acc },
            );
        } else if kw == "split-perc"@ {
            lemma_parsed_set_percs_valid(
                toks.skip(2),
                UserCmd { default_split_perc: parse_perc_chars(toks[1]), ..acc },
            );
        } else if kw == "vsplit-perc"@ {
            lemma_parsed_set_percs_valid(
                toks.skip(2),
                UserCmd { vsplit_perc: parse_perc_chars(toks[1]), ..acc },
            );
        } else if kw == "hsplit-perc"@ {
            lemma_parsed_set_percs_valid(
                toks.skip(2),
                UserCmd { hsplit_perc: parse_perc_chars(toks[1]), ..acc },
            );
        } else if kw == "inc-hsplit"@ || kw == "inc-hsplit-perc"@ {
            lemma_parsed_set_percs_valid(
                toks.skip(2),
                UserCmd { inc_hsplit: parse_perc_chars(toks[1]), ..acc },
            );
        } else if kw == "inc-vsplit"@ || kw == "inc-vsplit-perc"@ {
            lemma_parsed_set_percs_valid(
                toks.skip(2),
                UserCmd { inc_vsplit: parse_perc_chars(toks[1]), ..acc },
            );
        } else if kw == "dec-hsplit"@ || kw == "dec-hsplit-perc"@ {
            lemma_parsed_set_percs_valid(
                toks.skip(2),
                UserCmd { dec_hsplit: parse_perc_chars(toks[1]), ..acc },
            );
        } else if kw == "dec-vsplit"@ || kw == "dec-vsplit-perc"@ {
            lemma_parsed_set_percs_valid(
                toks.skip(2),
                UserCmd { dec_vsplit: parse_perc_chars(toks[1]), ..acc },
            );
        }
    }
}

/// The characters of `s`, one by one.
pub fn str_chars(s: &str) -> (v: Vec<char>)
    ensures
        v@ == s@,
{
    let n = s.unicode_len();
    let mut v: Vec<char> = Vec::new();
    let mut i: usize = 0;
    while i < n
        invariant
            n == s@.len(),
            i <= n,
            v@ =~= s@.subrange(0, i as int),
        decreases n - i,
    {
        v.push(s.get_char(i));
        i = i + 1;
    }
    proof {
        assert(v@ =~= s@);
    }
    v
}

/// Whether the characters of `t` spell exactly the literal `lit`.
fn token_eq(t: &Vec<char>, lit: &str) -> (r: bool)
    ensures
        r == (t@ == lit@),
{
    let n = lit.unicode_len();
    if t.len() != n {
        proof {
            assert(t@ != lit@);
        }
        return false;
    }
    let mut i: usize = 0;
    while i < n
        invariant
            n == lit@.len(),
            n == t@.len(),
            i <= n,
            forall|k: int| 0 <= k < i ==> t@[k] == lit@[k],
        decreases n - i,
    {
        if t[i] != lit.get_char(i) {
            proof {
                assert(t@[i as int] != lit@[i as int]);
            }
            return false;
        }
        i = i + 1;
    }
    proof {
        assert(t@ =~= lit@);
    }
    true
}

/// A token with its optional `--` flag prefix removed.
fn strip_dashes(t: &Vec<char>) -> (out: Vec<char>)
    ensures
        out@ == strip_flag_dashes(t@),
{
    if t.len() >= 2 && t[0] == '-' && t[1] == '-' {
        let mut out: Vec<char> = Vec::new();
        let mut i: usize = 2;
        while i < t.len()
            invariant
                2 <= i <= t@.len(),
                out@ =~= t@.subrange(2, i as int),
            decreases t@.len() - i,
        {
            out.push(t[i]);
            i = i + 1;
        }
        proof {
            assert(out@ =~= t@.skip(2));
        }
        out
    } else {
        let mut out: Vec<char> = Vec::new();
        let mut i: usize = 0;
        while i < t.len()
            invariant
                i <= t@.len(),
                out@ =~= t@.subrange(0, i as int),
            decreases t@.len() - i,
        {
            out.push(t[i]);
            i = i + 1;
        }
        proof {
            assert(out@ =~= t@);
        }
        out
    }
}

/// Cut `s` into tokens at every space, exactly as [`split_on`] describes.
pub fn tokenize(s: &Vec<char>) -> (toks: Vec<Vec<char>>)
    ensures
        toks@.map_values(|t: Vec<char>| t@) == split_on(s@, ' '),
{
    let mut toks: Vec<Vec<char>> = Vec::new();
    let mut cur: Vec<char> = Vec::new();
    let ghost mut start: int = 0;
    let mut i: usize = 0;
    proof {
        assert(toks@.map_values(|t: Vec<char>| t@) =~= Seq::<Seq<char>>::empty());
        assert(s@.skip(0) =~= s@);
        assert(Seq::<Seq<char>>::empty() + split_on(s@, ' ') =~= split_on(s@, ' '));
    }
    while i < s.len()
        invariant
            0 <= start <= i <= s@.len(),
            cur@ =~= s@.subrange(start, i as int),
            forall|k: int| start <= k < i ==> s@[k] != ' ',
            toks@.map_values(|t: Vec<char>| t@) + split_on(s@.skip(start), ' ') == split_on(
                s@,
                ' ',
            ),
        decreases s@.len() - i,
    {
        if s[i] == ' ' {
            proof {
                let rem = s@.skip(start);
                assert(rem[i - start] == ' ');
                assert(forall|m: int| 0 <= m < i - start ==> rem[m] != ' ');
                lemma_find_char_at(rem, ' ', i - start);
                assert(rem.take(i - start) =~= cur@);
                assert(rem.skip(i - start + 1) =~= s@.skip(i + 1));
            }
            let ghost old_toks = toks@;
            toks.push(cur);
            proof {
                assert(toks@.map_values(|t: Vec<char>| t@) =~= old_toks.map_values(
                    |t: Vec<char>| t@,
                ) + seq![cur@]);
            }
            cur = Vec::new();
            proof {
                start = i + 1;
            }
        } else {
            cur.push(s[i]);
        }
        i = i + 1;
        proof {
            assert(cur@ =~= s@.subrange(start, i as int));
        }
    }
    proof {
        let rem = s@.skip(start);
        assert(forall|m: int| 0 <= m < rem.len() ==> rem[m] != ' ');
        lemma_find_char_none(rem, ' ');
        assert(rem =~= cur@);
    }
    let ghost old_toks = toks@;
    toks.push(cur);
    proof {
        assert(toks@.map_values(|t: Vec<char>| t@) =~= old_toks.map_values(|t: Vec<char>| t@)
            + seq![cur@]);
        assert(toks@.map_values(|t: Vec<char>| t@) =~= split_on(s@, ' '));
    }
    toks
}

/// Fold a token sequence into a command, exactly as [`parse_cmd_tokens`]
/// describes; `None` on the first unknown keyword, malformed value or
/// repeated sub-effect.
pub fn parse_tokens(toks: &Vec<Vec<char>>) -> (r: Option<UserCmd>)
    ensures
        r == parse_cmd_tokens(toks@.map_values(|t: Vec<char>| t@), empty_user_cmd()),
{
    let ghost tv = toks@.map_values(|t: Vec<char>| t@);
    let mut acc = UserCmd::empty();
    let mut i: usize = 0;
    proof {
        assert(tv.skip(0) =~~= tv);
    }
    while i < toks.len()
        invariant
            i <= toks@.len(),
            tv == toks@.map_values(|t: Vec<char>| t@),
            parse_cmd_tokens(tv.skip(i as int), acc) == parse_cmd_tokens(tv, empty_user_cmd()),
        decreases toks@.len() - i,
    {
        let kw = strip_dashes(&toks[i]);
        proof {
            assert(tv.skip(i as int)[0] == tv[i as int]);
            assert(tv[i as int] == toks@[i as int]@);
            assert(tv.skip(i as int).skip(1) =~~= tv.skip(i as int + 1));
        }
        if token_eq(&kw, "reverse") {
            if acc.reverse {
                return None;
            }
            acc = UserCmd { reverse: true, ..acc };
            i = i + 1;
        } else if token_eq(&kw, "start-hsplit") {
            if acc.start_hsplit {
                return None;
            }
            acc = UserCmd { start_hsplit: true, ..acc };
            i = i + 1;
        } else if token_eq(&kw, "start-vsplit") {
            if acc.start_vsplit {
                return None;
            }
            acc = UserCmd { start_vsplit: true, ..acc };
            i = i + 1;
        } else if i + 1 >= toks.len() {
            return None;
        } else {
            proof {
                assert(tv.skip(i as int)[1] == tv[i as int + 1]);
                assert(tv[i as int + 1] == toks@[i as int + 1]@);
                assert(tv.skip(i as int).skip(2) =~~= tv.skip(i as int + 2));
            }
            if token_eq(&kw, "inner-gap") {
                if acc.default_inner_gap.is_some() {
                    return None;
                }
                match parse_u32_token(&toks[i + 1]) {
                    None => return None,
                    Some(g) => {
                        acc = UserCmd { default_inner_gap: Some(g), ..acc };
                        i = i + 2;
                    },
                }
            } else if token_eq(&kw, "ig-left") {
                if acc.ig_left.is_some() {
                    return None;
                }
                match parse_u32_token(&toks[i + 1]) {
                    None => return None,
                    Some(g) => {
                        acc = UserCmd { ig_left: Some(g), ..acc };
                        i = i + 2;
                    },
                }
            } else if token_eq(&kw, "ig-right") {
                if acc.ig_right.is_some() {
                    return None;
                }
                match parse_u32_token(&toks[i + 1]) {
                    None => return None,
                    Some(g) => {
                        acc = UserCmd { ig_right: Some(g), ..acc };
                        i = i + 2;
                    },
                }
            } else if token_eq(&kw, "ig-top") {
                if acc.ig_top.is_some() {
                    return None;
                }
                match parse_u32_token(&toks[i + 1]) {
                    None => return None,
                    Some(g) => {
                        acc = UserCmd { ig_top: Some(g), ..acc };
                        i = i + 2;
                    },
                }
            } else if token_eq(&kw, "ig-bottom") {
                if acc.ig_bottom.is_some() {
                    return None;
                }
                match parse_u32_token(&toks[i + 1]) {
                    None => return None,
                    Some(g) => {
                        acc = UserCmd { ig_bottom: Some(g), ..acc };
                        i = i + 2;
                    },
                }
            } else if token_eq(&kw, "outer-gap") {
                if acc.default_outer_gap.is_some() {
                    return None;
                }
                match parse_u32_token(&toks[i + 1]) {
                    None => return None,
                    Some(g) => {
                        acc = UserCmd { default_outer_gap: Some(g), ..acc };
                        i = i + 2;
                    },
                }
            } else if token_eq(&kw, "og-left") {
                if acc.og_left.is_some() {
                    return None;
                }
                match parse_u32_token(&toks[i + 1]) {
                    None => return None,
                    Some(g) => {
                        acc = UserCmd { og_left: Some(g), ..acc };
                        i = i + 2;
                    },
                }
            } else if token_eq(&kw, "og-right") {
                if acc.og_right.is_some() {
                    return None;
                }
                match parse_u32_token(&toks[i + 1]) {
                    None => return None,
                    Some(g) => {
                        acc = UserCmd { og_right: Some(g), ..acc };
                        i = i + 2;
                    },
                }
            } else if token_eq(&kw, "og-top") {
                if acc.og_top.is_some() {
                    return None;
                }
                match parse_u32_token(&toks[i + 1]) {
                    None => return None,
                    Some(g) => {
                        acc = UserCmd { og_top: Some(g), ..acc };
                        i = i + 2;
                    },
                }
            } else if token_eq(&kw, "og-bottom") {
                if acc.og_bottom.is_some() {
                    return None;
                }
                match parse_u32_token(&toks[i + 1]) {
                    None => return None,
                    Some(g) => {
                        acc = UserCmd { og_bottom: Some(g), ..acc };
                        i = i + 2;
                    },
                }
            } else if token_eq(&kw, "split-perc") {
                if acc.default_split_perc.is_some() {
                    return None;
                }
                match parse_perc_token(&toks[i + 1]) {
                    None => return None,
                    Some(p) => {
                        if p == 0 || p >= PERC_SCALE {
                            return None;
                        }
                        acc = UserCmd { default_split_perc: Some(p), ..acc };
                        i = i + 2;
                    },
                }
            } else if token_eq(&kw, "vsplit-perc") {
                if acc.vsplit_perc.is_some() {
                    return None;
                }
                match parse_perc_token(&toks[i + 1]) {
                    None => return None,
                    Some(p) => {
                        if p == 0 || p >= PERC_SCALE {
                            return None;
                        }
                        acc = UserCmd { vsplit_perc: Some(p), ..acc };
                        i = i + 2;
                    },
                }
            } else if token_eq(&kw, "hsplit-perc") {
                if acc.hsplit_perc.is_some() {
                    return None;
                }
                match parse_perc_token(&toks[i + 1]) {
                    None => return None,
                    Some(p) => {
                        if p == 0 || p >= PERC_SCALE {
                            return None;
                        }
                        acc = UserCmd { hsplit_perc: Some(p), ..acc };
                        i = i + 2;
                    },
                }
            } else if token_eq(&kw, "inc-hsplit") || token_eq(&kw, "inc-hsplit-perc") {
                if acc.inc_hsplit.is_some() {
                    return None;
                }
                match parse_perc_token(&toks[i + 1]) {
                    None => return None,
                    Some(p) => {
                        if p == 0 {
                            return None;
                        }
                        acc = UserCmd { inc_hsplit: Some(p), ..acc };
                        i = i + 2;
                    },
                }
            } else if token_eq(&kw, "inc-vsplit") || token_eq(&kw, "inc-vsplit-perc") {
                if acc.inc_vsplit.is_some() {
                    return None;
                }
                match parse_perc_token(&toks[i + 1]) {
                    None => return None,
                    Some(p) => {
                        if p == 0 {
                            return None;
                        }
                        acc = UserCmd { inc_vsplit: Some(p), ..acc };
                        i = i + 2;
                    },
                }
            } else if token_eq(&kw, "dec-hsplit") || token_eq(&kw, "dec-hsplit-perc") {
                if acc.dec_hsplit.is_some() {
                    return None;
                }
                match parse_perc_token(&toks[i + 1]) {
                    None => return None,
                    Some(p) => {
                        if p == 0 {
                            return None;
                        }
                        acc = UserCmd { dec_hsplit: Some(p), ..acc };
                        i = i + 2;
                    },
                }
            } else if token_eq(&kw, "dec-vsplit") || token_eq(&kw, "dec-vsplit-perc") {
                if acc.dec_vsplit.is_some() {
                    return None;
                }
                match parse_perc_token(&toks[i + 1]) {
                    None => return None,
                    Some(p) => {
                        if p == 0 {
                            return None;
                        }
                        acc = UserCmd { dec_vsplit: Some(p), ..acc };
                        i = i + 2;
                    },
                }
            } else {
                return None;
            }
        }
    }
    proof {
        assert(tv.skip(tv.len() as int) =~~= Seq::<Seq<char>>::empty());
    }
    Some(acc)
}

/// Parse a whole command line into a command, exactly as [`parse_cmdline`]
/// describes.
pub fn parse_user_cmd(cmd: &str) -> (r: Option<UserCmd>)
    ensures
        r == parse_cmdline(cmd@),
{
    let chars = str_chars(cmd);
    let toks = tokenize(&chars);
    parse_tokens(&toks)
}

/// The last space-separated token of a command line, where single-keyword
/// commands carry their argument.
pub open spec fn last_token(s: Seq<char>) -> Seq<char> {
    split_on(s, ' ').last()
}

/// Extract the gap argument from a gap command string: its last
/// space-separated token, read as a decimal pixel count.
///
/// # Errors
///
/// Returns `BSPLayoutError::CmdError` exactly when that token is not a
/// plain decimal number that fits a `u32`.
pub fn parse_gap_cmd(cmd_str: &str) -> (r: Result<u32, BSPLayoutError>)
    ensures
        match r {
            Ok(g) => parse_u32_digits(last_token(cmd_str@)) == Some(g),
            Err(e) => parse_u32_digits(last_token(cmd_str@)) is None && e matches
                BSPLayoutError::CmdError(_),
        },
{
    let chars = str_chars(cmd_str);
    let toks = tokenize(&chars);
    proof {
        lemma_split_on_nonempty(cmd_str@, ' ');
    }
    let last = &toks[toks.len() - 1];
    proof {
        assert(last@ == toks@.map_values(|t: Vec<char>| t@).last());
    }
    match parse_u32_token(last) {
        Some(g) => Ok(g),
        None => Err(BSPLayoutError::CmdError("Could not parse u32 from gap argument".to_owned())),
    }
}

/// Extract the split-share argument from a split command string: its last
/// space-separated token, read as a decimal fraction in ten-thousandths.
///
/// # Errors
///
/// Returns `BSPLayoutError::CmdError` exactly when that token is not a
/// plain decimal fraction strictly between zero and one.
pub fn parse_split_cmd(cmd_str: &str) -> (r: Result<u32, BSPLayoutError>)
    ensures
        match r {
            Ok(p) => parse_perc_chars(last_token(cmd_str@)) == Some(p) && 0 < p < PERC_SCALE,
            Err(e) => (match parse_perc_chars(last_token(cmd_str@)) {
                Some(v) => !(0 < v < PERC_SCALE),
                None => true,
            }) && e matches BSPLayoutError::CmdError(_),
        },
{
    let chars = str_chars(cmd_str);
    let toks = tokenize(&chars);
    proof {
        lemma_split_on_nonempty(cmd_str@, ' ');
    }
    let last = &toks[toks.len() - 1];
    proof {
        assert(last@ == toks@.map_values(|t: Vec<char>| t@).last());
    }
    match parse_perc_token(last) {
        Some(p) => {
            if p == 0 || p >= PERC_SCALE {
                Err(
                    BSPLayoutError::CmdError(
                        "Split percents must be greater than 0 and less than 1".to_owned(),
                    ),
                )
            } else {
                Ok(p)
            }
        },
        None => Err(
            BSPLayoutError::CmdError("Could not parse f32 from percent argument".to_owned()),
        ),
    }
}

} // verus!
