//! Mode-grammar validation: the mode-change command's compound
//! argument syntax, for the user-mode and the channel-mode alphabets.
//! Both walk the request left to right and stop at the first failure.

use vstd::prelude::*;
use vstd::string::*;

use crate::error::CommandError;
use crate::error::SpecCommandError;
use crate::error::validation_display;
use crate::error::validation_reason;
use crate::validators::username_error_message;
use crate::validators::username_valid;
use crate::validators::validate_username;

verus! {

/// A decimal digit.
pub open spec fn is_digit(c: char) -> bool {
    48 <= c as u32 <= 57
}

/// The value of a decimal digit.
pub open spec fn digit_val(c: char) -> int {
    c as u32 - 48
}

/// Whether every character of `s` is a decimal digit.
pub open spec fn all_digits(s: Seq<char>) -> bool {
    forall|i: int| 0 <= i < s.len() ==> is_digit(s[i])
}

/// The number written by the digit string `s`, most significant first.
pub open spec fn digits_val(s: Seq<char>) -> int
    decreases s.len(),
{
    if s.len() == 0 {
        0
    } else {
        digits_val(s.drop_last()) * 10 + digit_val(s.last())
    }
}

/// `s` with one leading `+` removed, as the decimal parser sees it.
pub open spec fn sign_stripped(s: Seq<char>) -> Seq<char> {
    if s.len() > 0 && s[0] == '+' {
        s.skip(1)
    } else {
        s
    }
}

/// Whether `s` parses as a machine-word-sized non-negative integer: an
/// optional `+`, then one or more digits, writing a value that fits.
pub open spec fn parses_as_usize(s: Seq<char>) -> bool {
    let d = sign_stripped(s);
    d.len() > 0 && all_digits(d) && digits_val(d) <= usize::MAX
}

/// The reason reported when `s` does not parse: emptiness first, then
/// a non-digit, then a value too large.
pub open spec fn parse_error_message(s: Seq<char>) -> Seq<char> {
    let d = sign_stripped(s);
    if s.len() == 0 {
        "cannot parse integer from empty string"@
    } else if d.len() == 0 || !all_digits(d) {
        "invalid digit found in string"@
    } else {
        "number too large to fit in target type"@
    }
}

/// A digit string writes a non-negative number.
proof fn lemma_digits_val_nonneg(s: Seq<char>)
    requires
        all_digits(s),
    ensures
        digits_val(s) >= 0,
    decreases s.len(),
{
    if s.len() > 0 {
        assert(all_digits(s.drop_last())) by {
            assert(forall|i: int| 0 <= i < s.len() - 1 ==> s.drop_last()[i] == s[i]);
        }
        lemma_digits_val_nonneg(s.drop_last());
    }
}

/// Appending digits never shrinks the written number.
proof fn lemma_digits_val_mono(s: Seq<char>, k: int)
    requires
        all_digits(s),
        0 <= k <= s.len(),
    ensures
        digits_val(s) >= digits_val(s.take(k)),
    decreases s.len() - k,
{
    if k < s.len() {
        assert(s.take(k + 1).drop_last() =~= s.take(k));
        assert(s.take(k + 1).last() == s[k]);
        assert(all_digits(s.take(k))) by {
            assert(forall|i: int| 0 <= i < k ==> s.take(k)[i] == s[i]);
        }
        lemma_digits_val_nonneg(s.take(k));
        assert(digits_val(s.take(k + 1)) == digits_val(s.take(k)) * 10 + digit_val(s[k]));
        lemma_digits_val_mono(s, k + 1);
    } else {
        assert(s.take(k) =~= s);
    }
}

/// Parses `s` as a non-negative machine-word-sized integer: an
/// optional leading `+`, then one or more decimal digits. On failure
/// the error carries the reason of `parse_error_message`.
pub fn parse_usize(s: &str) -> (r: Result<usize, String>)
    ensures
        parses_as_usize(s@) ==> r == Ok::<usize, String>(
            digits_val(sign_stripped(s@)) as usize,
        ),
        !parses_as_usize(s@) ==> (r matches Err(m) && m@ == parse_error_message(s@)),
{
    let n = s.unicode_len();
    if n == 0 {
        return Err(String::from_str("cannot parse integer from empty string"));
    }
    let start: usize = if s.get_char(0) == '+' {
        1
    } else {
        0
    };
    let ghost d = sign_stripped(s@);
    proof {
        assert(d =~= s@.skip(start as int));
    }
    if start == n {
        return Err(String::from_str("invalid digit found in string"));
    }
    // First pass: every character after the sign must be a digit.
    let mut i: usize = start;
    while i < n
        invariant
            n == s@.len(),
            n > 0,
            start < n,
            start <= i <= n,
            d == sign_stripped(s@),
            d == s@.skip(start as int),
            forall|j: int| 0 <= j < i - start ==> is_digit(d[j]),
        decreases n - i,
    {
        let cv = s.get_char(i) as u32;
        if cv < 48 || cv > 57 {
            proof {
                assert(d[i - start as int] == s@[i as int]);
                assert(!is_digit(d[i - start as int]));
            }
            return Err(String::from_str("invalid digit found in string"));
        }
        proof {
            assert(d[i - start as int] == s@[i as int]);
        }
        i += 1;
    }
    proof {
        assert(d.len() == n - start);
        assert(all_digits(d));
    }
    // Second pass: accumulate the value, watching for overflow.
    let mut acc: usize = 0;
    let mut k: usize = start;
    while k < n
        invariant
            n == s@.len(),
            n > 0,
            start < n,
            start <= k <= n,
            d == sign_stripped(s@),
            d == s@.skip(start as int),
            d.len() > 0,
            all_digits(d),
            acc == digits_val(d.take(k - start)),
        decreases n - k,
    {
        let cv = s.get_char(k) as u32;
        proof {
            assert(d[k - start as int] == s@[k as int]);
            assert(is_digit(d[k - start as int]));
        }
        let dv: usize = (cv - 48) as usize;
        let ghost kk = k - start as int;
        proof {
            assert(d.take(kk + 1).drop_last() =~= d.take(kk));
            assert(d.take(kk + 1).last() == d[kk]);
        }
        let step = match acc.checked_mul(10) {
            Some(m) => m.checked_add(dv),
            None => None,
        };
        match step {
            Some(a2) => {
                acc = a2;
            },
            None => {
                proof {
                    assert(digits_val(d.take(kk + 1)) > usize::MAX);
                    lemma_digits_val_mono(d, kk + 1);
                    assert(digits_val(d) > usize::MAX);
                }
                return Err(String::from_str("number too large to fit in target type"));
            },
        }
        k += 1;
    }
    proof {
        assert(d.take(n - start as int) =~= d);
    }
    Ok(acc)
}

/// The user-mode alphabet: signs and the letters `i`, `o`, `O`, `r`,
/// `w`.
pub open spec fn usermode_char_ok(c: char) -> bool {
    c == '+' || c == '-' || c == 'i' || c == 'o' || c == 'O' || c == 'r' || c == 'w'
}

/// Outcome of validating the user-mode request `pairs` from pair `k`
/// on: the first failing pair decides. Every accepted pair advances
/// the parameter index by one.
pub open spec fn spec_validate_usermodes(
    pairs: Seq<(Seq<char>, Seq<Seq<char>>)>,
    k: int,
) -> Result<(), SpecCommandError>
    decreases pairs.len() - k,
{
    if k >= pairs.len() {
        Ok(())
    } else {
        let ms = pairs[k].0;
        let args = pairs[k].1;
        if ms.len() == 0 {
            Err(SpecCommandError::MissingParameter { index: k + 1 })
        } else if exists|i: int| 0 <= i < ms.len() && !usermode_char_ok(ms[i]) {
            Err(SpecCommandError::UnknownUserModeFlag { index: k + 1 })
        } else if args.len() > 0 {
            Err(SpecCommandError::WrongParameter { command: "MODE"@, index: k + 1 })
        } else {
            spec_validate_usermodes(pairs, k + 1)
        }
    }
}

/// Validates a user-mode change request: each pair is a flag-string
/// (signs and letters of the user-mode alphabet) with its argument
/// list, which must be empty. Scanning stops at the first failure.
pub fn validate_usermodes(modes: &Vec<(String, Vec<String>)>) -> (r: Result<(), CommandError>)
    ensures
        match r {
            Ok(_) => spec_validate_usermodes(modes.deep_view(), 0) is Ok,
            Err(e) => spec_validate_usermodes(modes.deep_view(), 0) matches Err(se)
                && e.deep_view() == se,
        },
{
    let ghost dv = modes.deep_view();
    let n = modes.len();
    let mut k: usize = 0;
    while k < n
        invariant
            dv == modes.deep_view(),
            n == modes@.len(),
            dv.len() == n,
            k <= n,
            spec_validate_usermodes(dv, 0) == spec_validate_usermodes(dv, k as int),
        decreases n - k,
    {
        proof {
            assert(dv[k as int] == modes@[k as int].deep_view());
        }
        let ms: &str = modes[k].0.as_str();
        let mlen = ms.unicode_len();
        if mlen == 0 {
            return Err(CommandError::MissingParameter { index: k + 1 });
        }
        let mut i: usize = 0;
        while i < mlen
            invariant
                dv == modes.deep_view(),
                n == modes@.len(),
                dv.len() == n,
                k < n,
                spec_validate_usermodes(dv, 0) == spec_validate_usermodes(dv, k as int),
                dv[k as int].0 == ms@,
                mlen == ms@.len(),
                mlen > 0,
                i <= mlen,
                forall|j: int| 0 <= j < i ==> usermode_char_ok(ms@[j]),
            decreases mlen - i,
        {
            let c = ms.get_char(i);
            if c != '+' && c != '-' && c != 'i' && c != 'o' && c != 'O' && c != 'r' && c != 'w' {
                return Err(CommandError::UnknownUserModeFlag { index: k + 1 });
            }
            i += 1;
        }
        if modes[k].1.len() > 0 {
            return Err(
                CommandError::WrongParameter { command: String::from_str("MODE"), index: k + 1 },
            );
        }
        proof {
            assert(dv[k as int].1.len() == modes@[k as int].1.deep_view().len());
        }
        k += 1;
    }
    Ok(())
}

/// Channel-mode letters that never take an argument.
pub open spec fn chanmode_simple(c: char) -> bool {
    c == 'i' || c == 'm' || c == 't' || c == 'n' || c == 's'
}

/// Channel-mode letters for the ban-style lists: they consume one
/// argument when present, its content unchecked.
pub open spec fn chanmode_list(c: char) -> bool {
    c == 'b' || c == 'e' || c == 'I'
}

/// Channel-mode letters naming a member: they require one argument
/// that must be a valid username.
pub open spec fn chanmode_member(c: char) -> bool {
    c == 'o' || c == 'v' || c == 'h' || c == 'q' || c == 'a'
}

/// Outcome of walking one flag-string `ms` from character `ci` with
/// arguments `args` consumed up to `ai` and sign state `sign`: the
/// number of arguments consumed, or the first failure. `param_idx` is
/// the 1-based position of the flag-string, used in failures.
pub open spec fn spec_chan_flags(
    target: Seq<char>,
    ms: Seq<char>,
    args: Seq<Seq<char>>,
    ci: int,
    ai: int,
    sign: bool,
    param_idx: int,
) -> Result<int, SpecCommandError>
    decreases ms.len() - ci,
{
    if ci < 0 || ci >= ms.len() {
        Ok(ai)
    } else {
        let c = ms[ci];
        if c == '+' {
            spec_chan_flags(target, ms, args, ci + 1, ai, true, param_idx)
        } else if c == '-' {
            spec_chan_flags(target, ms, args, ci + 1, ai, false, param_idx)
        } else if chanmode_list(c) {
            if ai < args.len() {
                spec_chan_flags(target, ms, args, ci + 1, ai + 1, sign, param_idx)
            } else {
                spec_chan_flags(target, ms, args, ci + 1, ai, sign, param_idx)
            }
        } else if chanmode_member(c) {
            if ai < args.len() {
                let arg = args[ai];
                if username_valid(arg) {
                    spec_chan_flags(target, ms, args, ci + 1, ai + 1, sign, param_idx)
                } else {
                    Err(
                        SpecCommandError::InvalidModeParam {
                            target,
                            modechar: c,
                            param: arg,
                            reason: validation_display(username_error_message(arg)),
                        },
                    )
                }
            } else {
                Err(
                    SpecCommandError::InvalidModeParam {
                        target,
                        modechar: c,
                        param: Seq::<char>::empty(),
                        reason: "No argument"@,
                    },
                )
            }
        } else if c == 'l' {
            if sign {
                if ai < args.len() {
                    let arg = args[ai];
                    if parses_as_usize(arg) {
                        spec_chan_flags(target, ms, args, ci + 1, ai + 1, sign, param_idx)
                    } else {
                        Err(
                            SpecCommandError::InvalidModeParam {
                                target,
                                modechar: c,
                                param: arg,
                                reason: parse_error_message(arg),
                            },
                        )
                    }
                } else {
                    Err(
                        SpecCommandError::InvalidModeParam {
                            target,
                            modechar: c,
                            param: Seq::<char>::empty(),
                            reason: "No argument"@,
                        },
                    )
                }
            } else if ai < args.len() {
                Err(
                    SpecCommandError::InvalidModeParam {
                        target,
                        modechar: c,
                        param: args[ai],
                        reason: "Unexpected argument"@,
                    },
                )
            } else {
                spec_chan_flags(target, ms, args, ci + 1, ai, sign, param_idx)
            }
        } else if c == 'k' {
            if sign {
                if ai < args.len() {
                    spec_chan_flags(target, ms, args, ci + 1, ai + 1, sign, param_idx)
                } else {
                    Err(
                        SpecCommandError::InvalidModeParam {
                            target,
                            modechar: c,
                            param: Seq::<char>::empty(),
                            reason: "No argument"@,
                        },
                    )
                }
            } else if ai < args.len() {
                Err(
                    SpecCommandError::InvalidModeParam {
                        target,
                        modechar: c,
                        param: args[ai],
                        reason: "Unexpected argument"@,
                    },
                )
            } else {
                spec_chan_flags(target, ms, args, ci + 1, ai, sign, param_idx)
            }
        } else if chanmode_simple(c) {
            spec_chan_flags(target, ms, args, ci + 1, ai, sign, param_idx)
        } else {
            Err(SpecCommandError::UnknownMode { index: param_idx, modechar: c, target })
        }
    }
}

/// Walks one flag-string of a channel-mode request, consuming
/// arguments left to right as its letters demand.
fn check_chan_flags(target: &str, ms: &str, args: &Vec<String>, param_idx: usize) -> (r: Result<
    usize,
    CommandError,
>)
    ensures
        match r {
            Ok(consumed) => spec_chan_flags(target@, ms@, args.deep_view(), 0, 0, false,
            param_idx as int) == Ok::<int, SpecCommandError>(consumed as int) && consumed
                <= args@.len(),
            Err(e) => (spec_chan_flags(target@, ms@, args.deep_view(), 0, 0, false,
            param_idx as int) matches Err(se) && e.deep_view() == se),
        },
{
    let ghost adv = args.deep_view();
    let mlen = ms.unicode_len();
    let alen = args.len();
    let mut ci: usize = 0;
    let mut ai: usize = 0;
    let mut sign: bool = false;
    while ci < mlen
        invariant
            adv == args.deep_view(),
            mlen == ms@.len(),
            alen == args@.len(),
            adv.len() == alen,
            ci <= mlen,
            ai <= alen,
            spec_chan_flags(target@, ms@, adv, 0, 0, false, param_idx as int) == spec_chan_flags(
                target@,
                ms@,
                adv,
                ci as int,
                ai as int,
                sign,
                param_idx as int,
            ),
        decreases mlen - ci,
    {
        let c = ms.get_char(ci);
        proof {
            if ai < alen {
                assert(adv[ai as int] == args@[ai as int].deep_view());
            }
        }
        if c == '+' {
            sign = true;
        } else if c == '-' {
            sign = false;
        } else if c == 'b' || c == 'e' || c == 'I' {
            if ai < alen {
                ai += 1;
            }
        } else if c == 'o' || c == 'v' || c == 'h' || c == 'q' || c == 'a' {
            if ai < alen {
                match validate_username(args[ai].as_str()) {
                    Ok(_) => {
                        ai += 1;
                    },
                    Err(e) => {
                        let reason = validation_reason(&e);
                        return Err(
                            CommandError::InvalidModeParam {
                                target: String::from_str(target),
                                modechar: c,
                                param: args[ai].clone(),
                                reason,
                            },
                        );
                    },
                }
            } else {
                return Err(
                    CommandError::InvalidModeParam {
                        target: String::from_str(target),
                        modechar: c,
                        param: String::new(),
                        reason: String::from_str("No argument"),
                    },
                );
            }
        } else if c == 'l' {
            if sign {
                if ai < alen {
                    match parse_usize(args[ai].as_str()) {
                        Ok(_) => {
                            ai += 1;
                        },
                        Err(m) => {
                            return Err(
                                CommandError::InvalidModeParam {
                                    target: String::from_str(target),
                                    modechar: c,
                                    param: args[ai].clone(),
                                    reason: m,
                                },
                            );
                        },
                    }
                } else {
                    return Err(
                        CommandError::InvalidModeParam {
                            target: String::from_str(target),
                            modechar: c,
                            param: String::new(),
                            reason: String::from_str("No argument"),
                        },
                    );
                }
            } else if ai < alen {
                return Err(
                    CommandError::InvalidModeParam {
                        target: String::from_str(target),
                        modechar: c,
                        param: args[ai].clone(),
                        reason: String::from_str("Unexpected argument"),
                    },
                );
            }
        } else if c == 'k' {
            if sign {
                if ai < alen {
                    ai += 1;
                } else {
                    return Err(
                        CommandError::InvalidModeParam {
                            target: String::from_str(target),
                            modechar: c,
                            param: String::new(),
                            reason: String::from_str("No argument"),
                        },
                    );
                }
            } else if ai < alen {
                return Err(
                    CommandError::InvalidModeParam {
                        target: String::from_str(target),
                        modechar: c,
                        param: args[ai].clone(),
                        reason: String::from_str("Unexpected argument"),
                    },
                );
            }
        } else if c == 'i' || c == 'm' || c == 't' || c == 'n' || c == 's' {
        } else {
            return Err(
                CommandError::UnknownMode {
                    index: param_idx,
                    modechar: c,
                    target: String::from_str(target),
                },
            );
        }
        ci += 1;
    }
    Ok(ai)
}

/// The number of parameters named by `pairs` from pair `k` on: one
/// for each flag-string, plus its arguments.
pub open spec fn params_from(pairs: Seq<(Seq<char>, Seq<Seq<char>>)>, k: int) -> int
    decreases pairs.len() - k,
{
    if k < 0 || k >= pairs.len() {
        0
    } else {
        1 + pairs[k].1.len() + params_from(pairs, k + 1)
    }
}

proof fn lemma_params_from_nonneg(pairs: Seq<(Seq<char>, Seq<Seq<char>>)>, k: int)
    ensures
        params_from(pairs, k) >= 0,
    decreases pairs.len() - k,
{
    if 0 <= k < pairs.len() {
        lemma_params_from_nonneg(pairs, k + 1);
    }
}

/// Outcome of validating the channel-mode request `pairs` from pair
/// `k` on, with `param_idx` the 1-based position of pair `k`: the
/// first failing pair decides; every accepted pair advances the index
/// by the arguments it consumed, plus one.
pub open spec fn spec_validate_channelmodes(
    target: Seq<char>,
    pairs: Seq<(Seq<char>, Seq<Seq<char>>)>,
    k: int,
    param_idx: int,
) -> Result<(), SpecCommandError>
    decreases pairs.len() - k,
{
    if k >= pairs.len() {
        Ok(())
    } else {
        let ms = pairs[k].0;
        let args = pairs[k].1;
        if ms.len() == 0 {
            Err(SpecCommandError::MissingParameter { index: param_idx })
        } else {
            match spec_chan_flags(target, ms, args, 0, 0, false, param_idx) {
                Ok(consumed) => spec_validate_channelmodes(
                    target,
                    pairs,
                    k + 1,
                    param_idx + consumed + 1,
                ),
                Err(e) => Err(e),
            }
        }
    }
}

/// Validates a channel-mode change request against `target`: each
/// pair is a flag-string (signs and channel-mode letters) with its
/// argument list, consumed positionally. Scanning stops at the first
/// failure. The request must name fewer parameters than fit in a
/// machine word.
pub fn validate_channelmodes(target: &str, modes: &Vec<(String, Vec<String>)>) -> (r: Result<
    (),
    CommandError,
>)
    requires
        params_from(modes.deep_view(), 0) < usize::MAX,
    ensures
        match r {
            Ok(_) => spec_validate_channelmodes(target@, modes.deep_view(), 0, 1) is Ok,
            Err(e) => (spec_validate_channelmodes(target@, modes.deep_view(), 0, 1) matches Err(se)
                && e.deep_view() == se),
        },
{
    let ghost dv = modes.deep_view();
    let n = modes.len();
    let mut k: usize = 0;
    let mut param_idx: usize = 1;
    while k < n
        invariant
            dv == modes.deep_view(),
            n == modes@.len(),
            dv.len() == n,
            k <= n,
            param_idx >= 1,
            param_idx as int + params_from(dv, k as int) <= usize::MAX,
            spec_validate_channelmodes(target@, dv, 0, 1) == spec_validate_channelmodes(
                target@,
                dv,
                k as int,
                param_idx as int,
            ),
        decreases n - k,
    {
        proof {
            assert(dv[k as int] == modes@[k as int].deep_view());
            lemma_params_from_nonneg(dv, k as int + 1);
        }
        let ms: &str = modes[k].0.as_str();
        if ms.unicode_len() == 0 {
            return Err(CommandError::MissingParameter { index: param_idx });
        }
        match check_chan_flags(target, ms, &modes[k].1, param_idx) {
            Ok(consumed) => {
                param_idx = param_idx + consumed + 1;
                k += 1;
            },
            Err(e) => {
                return Err(e);
            },
        }
    }
    Ok(())
}

} // verus!
