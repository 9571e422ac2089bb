//! Command-line argument resolution.
//!
//! Resolution happens in two passes. [`scan_args`] walks the arguments left
//! to right and records the arms configuration, the two switches, every
//! `--control-hz` value in the order given, and whether the walk stopped at
//! a flag that was missing its value. [`finish_args`] then takes the numeric
//! reading of each `--control-hz` value and decides the outcome: the first
//! value that is not a number is an error, a flag missing its value is an
//! error, and otherwise the last value given (or the default) is in force.

use vstd::prelude::*;

use crate::text::{debug_quoted, debug_text};

verus! {

/// An error resolving CLI options.
#[derive(Debug, Clone, PartialEq)]
pub enum CliError {
    /// `--arms` was the last argument, with no value following it.
    MissingArmsValue,
    /// `--control-hz` was the last argument, with no value following it.
    MissingControlHzValue,
    /// `--control-hz`'s value did not parse as a number.
    InvalidControlHz(String),
}

impl CliError {
    /// The text that describes the error.
    pub open spec fn description(&self) -> Seq<char> {
        match self {
            CliError::MissingArmsValue => "--arms requires a value"@,
            CliError::MissingControlHzValue => "--control-hz requires a value"@,
            CliError::InvalidControlHz(value) => "--control-hz value "@ + debug_text(value@)
                + " is not a valid number"@,
        }
    }

    /// A human-readable description of the error.
    pub fn message(&self) -> (text: String)
        ensures
            text@ == self.description(),
    {
        match self {
            CliError::MissingArmsValue => "--arms requires a value".to_owned(),
            CliError::MissingControlHzValue => "--control-hz requires a value".to_owned(),
            CliError::InvalidControlHz(value) => {
                let mut text = "--control-hz value ".to_owned();
                text.append(debug_quoted(value.as_str()).as_str());
                text.append(" is not a valid number");
                text
            },
        }
    }
}

/// A flag that was the last argument and so has no value.
#[derive(Debug, Clone, Copy, PartialEq, Eq, Structural)]
pub enum MissingFlagValue {
    /// `--arms` has no value.
    Arms,
    /// `--control-hz` has no value.
    ControlHz,
}

impl MissingFlagValue {
    /// The error a flag missing its value stands for.
    pub open spec fn error(self) -> CliError {
        match self {
            MissingFlagValue::Arms => CliError::MissingArmsValue,
            MissingFlagValue::ControlHz => CliError::MissingControlHzValue,
        }
    }
}

/// The resolved command-line configuration; `H` is the type of the motor
/// control frequency.
#[derive(Debug, Clone, PartialEq)]
pub struct CliOptions<H> {
    /// The arms configuration string, e.g. `"right,left"`.
    pub arms: String,
    /// Whether to upsample the actions.
    pub upsample: bool,
    /// Whether to apply the low-pass filter (only meaningful alongside
    /// `upsample`).
    pub filter: bool,
    /// The motor control frequency, in Hz.
    pub control_hz: H,
}

/// What the left-to-right walk over the arguments found.
#[derive(Debug, Clone, PartialEq)]
pub struct ArgScan {
    /// The arms configuration in force after the walk.
    pub arms: String,
    /// Whether `--upsample` was given.
    pub upsample: bool,
    /// Whether `--filter` was given.
    pub filter: bool,
    /// Every `--control-hz` value, in the order given.
    pub control_hz_texts: Vec<String>,
    /// A trailing `--arms` or `--control-hz` with no value.
    pub missing_value: Option<MissingFlagValue>,
}

/// The characters of each string, in order.
pub open spec fn texts_of(strings: Seq<String>) -> Seq<Seq<char>> {
    strings.map_values(|t: String| t@)
}

/// The mathematical content of an [`ArgScan`].
#[verifier::ext_equal]
pub struct ScanModel {
    /// The arms configuration in force.
    pub arms: Seq<char>,
    /// Whether `--upsample` was given.
    pub upsample: bool,
    /// Whether `--filter` was given.
    pub filter: bool,
    /// Every `--control-hz` value, in the order given.
    pub control_hz_texts: Seq<Seq<char>>,
    /// A trailing flag with no value.
    pub missing_value: Option<MissingFlagValue>,
}

impl ArgScan {
    /// The mathematical content of this scan.
    pub open spec fn model(&self) -> ScanModel {
        ScanModel {
            arms: self.arms@,
            upsample: self.upsample,
            filter: self.filter,
            control_hz_texts: texts_of(self.control_hz_texts@),
            missing_value: self.missing_value,
        }
    }
}

/// The arms configuration used when neither `--arms` nor the environment
/// gives one.
pub open spec fn default_arms() -> Seq<char> {
    seq!['r', 'i', 'g', 'h', 't', ',', 'l', 'e', 'f', 't']
}

/// `--arms`, followed by its value as the next argument.
pub open spec fn arms_flag() -> Seq<char> {
    seq!['-', '-', 'a', 'r', 'm', 's']
}

/// `--arms=`, followed by its value in the same argument.
pub open spec fn arms_eq_prefix() -> Seq<char> {
    seq!['-', '-', 'a', 'r', 'm', 's', '=']
}

/// `--upsample`.
pub open spec fn upsample_flag() -> Seq<char> {
    seq!['-', '-', 'u', 'p', 's', 'a', 'm', 'p', 'l', 'e']
}

/// `--filter`.
pub open spec fn filter_flag() -> Seq<char> {
    seq!['-', '-', 'f', 'i', 'l', 't', 'e', 'r']
}

/// `--control-hz`, followed by its value as the next argument.
pub open spec fn control_hz_flag() -> Seq<char> {
    seq!['-', '-', 'c', 'o', 'n', 't', 'r', 'o', 'l', '-', 'h', 'z']
}

/// `--control-hz=`, followed by its value in the same argument.
pub open spec fn control_hz_eq_prefix() -> Seq<char> {
    seq!['-', '-', 'c', 'o', 'n', 't', 'r', 'o', 'l', '-', 'h', 'z', '=']
}

/// `prefix` is a prefix of `s`.
pub open spec fn starts_with(s: Seq<char>, prefix: Seq<char>) -> bool {
    prefix.len() <= s.len() && s.subrange(0, prefix.len() as int) == prefix
}

/// The walk over `args` from position `i` on, starting from what was found
/// before `i`. Later occurrences of `--arms` overwrite earlier ones; a flag
/// that needs a value and is the last argument ends the walk.
pub open spec fn scan_from(args: Seq<Seq<char>>, i: int, m: ScanModel) -> ScanModel
    decreases args.len() - i,
    when 0 <= i
{
    if i >= args.len() {
        m
    } else {
        let a = args[i];
        if starts_with(a, arms_eq_prefix()) {
            scan_from(args, i + 1, ScanModel { arms: a.skip(arms_eq_prefix().len() as int), ..m })
        } else if a == arms_flag() {
            if i + 1 < args.len() {
                scan_from(args, i + 2, ScanModel { arms: args[i + 1], ..m })
            } else {
                ScanModel { missing_value: Some(MissingFlagValue::Arms), ..m }
            }
        } else if a == upsample_flag() {
            scan_from(args, i + 1, ScanModel { upsample: true, ..m })
        } else if a == filter_flag() {
            scan_from(args, i + 1, ScanModel { filter: true, ..m })
        } else if starts_with(a, control_hz_eq_prefix()) {
            scan_from(
                args,
                i + 1,
                ScanModel {
                    control_hz_texts: m.control_hz_texts.push(
                        a.skip(control_hz_eq_prefix().len() as int),
                    ),
                    ..m
                },
            )
        } else if a == control_hz_flag() {
            if i + 1 < args.len() {
                scan_from(
                    args,
                    i + 2,
                    ScanModel { control_hz_texts: m.control_hz_texts.push(args[i + 1]), ..m },
                )
            } else {
                ScanModel { missing_value: Some(MissingFlagValue::ControlHz), ..m }
            }
        } else {
            scan_from(args, i + 1, m)
        }
    }
}

/// The whole walk: the arms configuration starts as the environment's value
/// (or the default), both switches off, no `--control-hz` value seen.
pub open spec fn scan_model(args: Seq<Seq<char>>, env_arms: Option<Seq<char>>) -> ScanModel {
    scan_from(args, 0, initial_model(env_arms))
}

/// What the walk starts from.
pub open spec fn initial_model(env_arms: Option<Seq<char>>) -> ScanModel {
    ScanModel {
        arms: match env_arms {
            Some(a) => a,
            None => default_arms(),
        },
        upsample: false,
        filter: false,
        control_hz_texts: Seq::empty(),
        missing_value: None,
    }
}

/// Whether `s` holds exactly the characters of `lit`.
fn equals_literal(s: &str, lit: &[char]) -> (same: bool)
    ensures
        same == (s@ == lit@),
{
    let n = s.unicode_len();
    if n != lit.len() {
        return false;
    }
    let mut i: usize = 0;
    while i < n
        invariant
            n == s@.len(),
            n == lit@.len(),
            i <= n,
            forall|j: int| 0 <= j < i ==> s@[j] == lit@[j],
        decreases n - i,
    {
        if s.get_char(i) != lit[i] {
            return false;
        }
        i = i + 1;
    }
    assert(s@ =~= lit@);
    true
}

/// Whether `s` starts with the characters of `lit`.
fn has_prefix(s: &str, lit: &[char]) -> (found: bool)
    ensures
        found == starts_with(s@, lit@),
{
    let n = s.unicode_len();
    if n < lit.len() {
        return false;
    }
    let mut i: usize = 0;
    while i < lit.len()
        invariant
            n == s@.len(),
            lit@.len() <= n,
            i <= lit@.len(),
            forall|j: int| 0 <= j < i ==> s@[j] == lit@[j],
        decreases lit.len() - i,
    {
        if s.get_char(i) != lit[i] {
            assert(s@.subrange(0, lit@.len() as int)[i as int] != lit@[i as int]);
            return false;
        }
        i = i + 1;
    }
    assert(s@.subrange(0, lit@.len() as int) =~= lit@);
    true
}

/// The characters of `s` after its first `k`.
fn text_after(s: &str, k: usize) -> (rest: String)
    requires
        k <= s@.len(),
    ensures
        rest@ == s@.skip(k as int),
{
    let n = s.unicode_len();
    s.substring_char(k, n).to_owned()
}

/// Walks the program's own arguments (not `argv[0]`) left to right.
///
/// `--arms value`, `--arms=value`, `--control-hz value` and
/// `--control-hz=value` are accepted; the last `--arms` wins and overrides
/// `env_arms` (the `ARMS` environment variable's value, if set), which in
/// turn overrides the default `right,left`. Unknown arguments are ignored.
pub fn scan_args(args: &[String], env_arms: Option<String>) -> (scan: ArgScan)
    ensures
        scan.model() == scan_model(
            texts_of(args@),
            match env_arms {
                Some(a) => Some(a@),
                None => None,
            },
        ),
        (forall|j: int|
            0 <= j < args@.len() ==> #[trigger] args@[j]@ != arms_flag() && !starts_with(
                args@[j]@,
                arms_eq_prefix(),
            )) ==> scan.arms@ == match env_arms {
            Some(a) => a@,
            None => default_arms(),
        },
{
    let ghost texts = texts_of(args@);
    let ghost env_view = match &env_arms {
        Some(a) => Some(a@),
        None => None,
    };
    let mut arms = match env_arms {
        Some(a) => a,
        None => {
            let d = "right,left".to_owned();
            proof {
                reveal_strlit("right,left");
                assert(d@ == default_arms());
            }
            d
        },
    };
    let mut upsample = false;
    let mut filter = false;
    let mut control_hz_texts: Vec<String> = Vec::new();
    let ghost start = ScanModel {
        arms: arms@,
        upsample: false,
        filter: false,
        control_hz_texts: Seq::empty(),
        missing_value: None,
    };
    assert(texts_of(control_hz_texts@) =~= Seq::<Seq<char>>::empty());
    let n = args.len();
    let mut i: usize = 0;
    while i < n
        invariant
            n == args@.len(),
            texts == texts_of(args@),
            scan_from(texts, 0, start) == scan_model(texts, env_view),
            env_view == match env_arms {
                Some(a) => Some(a@),
                None => None,
            },
            i <= n,
            scan_from(texts, 0, start) == scan_from(
                texts,
                i as int,
                ScanModel {
                    arms: arms@,
                    upsample,
                    filter,
                    control_hz_texts: texts_of(control_hz_texts@),
                    missing_value: None,
                },
            ),
        decreases n - i,
    {
        let a = args[i].as_str();
        assert(a@ == texts[i as int]);
        let ghost before = texts_of(control_hz_texts@);
        if has_prefix(a, &['-', '-', 'a', 'r', 'm', 's', '=']) {
            arms = text_after(a, 7);
            i = i + 1;
        } else if equals_literal(a, &['-', '-', 'a', 'r', 'm', 's']) {
            if i + 1 < n {
                arms = args[i + 1].clone();
                assert(arms@ == texts[i + 1]);
                i = i + 2;
            } else {
                let scan = ArgScan {
                    arms,
                    upsample,
                    filter,
                    control_hz_texts,
                    missing_value: Some(MissingFlagValue::Arms),
                };
                proof {
                    lemma_env_arms_from_strings(args@, env_arms, scan);
                }
                return scan;
            }
        } else if equals_literal(a, &['-', '-', 'u', 'p', 's', 'a', 'm', 'p', 'l', 'e']) {
            upsample = true;
            i = i + 1;
        } else if equals_literal(a, &['-', '-', 'f', 'i', 'l', 't', 'e', 'r']) {
            filter = true;
            i = i + 1;
        } else if has_prefix(
            a,
            &['-', '-', 'c', 'o', 'n', 't', 'r', 'o', 'l', '-', 'h', 'z', '='],
        ) {
            let value = text_after(a, 13);
            control_hz_texts.push(value);
            assert(texts_of(control_hz_texts@) =~= before.push(value@));
            i = i + 1;
        } else if equals_literal(a, &['-', '-', 'c', 'o', 'n', 't', 'r', 'o', 'l', '-', 'h', 'z']) {
            if i + 1 < n {
                let value = args[i + 1].clone();
                assert(value@ == texts[i + 1]);
                control_hz_texts.push(value);
                assert(texts_of(control_hz_texts@) =~= before.push(value@));
                i = i + 2;
            } else {
                let scan = ArgScan {
                    arms,
                    upsample,
                    filter,
                    control_hz_texts,
                    missing_value: Some(MissingFlagValue::ControlHz),
                };
                proof {
                    lemma_env_arms_from_strings(args@, env_arms, scan);
                }
                return scan;
            }
        } else {
            i = i + 1;
        }
    }
    let scan = ArgScan { arms, upsample, filter, control_hz_texts, missing_value: None };
    proof {
        lemma_env_arms_from_strings(args@, env_arms, scan);
    }
    scan
}

/// Carries [`law_env_arms_in_force`] from the walk's model to the strings
/// `scan_args` was given.
proof fn lemma_env_arms_from_strings(args: Seq<String>, env_arms: Option<String>, scan: ArgScan)
    requires
        scan.model() == scan_model(
            texts_of(args),
            match env_arms {
                Some(a) => Some(a@),
                None => None,
            },
        ),
    ensures
        (forall|j: int|
            0 <= j < args.len() ==> #[trigger] args[j]@ != arms_flag() && !starts_with(
                args[j]@,
                arms_eq_prefix(),
            )) ==> scan.arms@ == match env_arms {
            Some(a) => a@,
            None => default_arms(),
        },
{
    let texts = texts_of(args);
    if forall|j: int|
        0 <= j < args.len() ==> #[trigger] args[j]@ != arms_flag() && !starts_with(
            args[j]@,
            arms_eq_prefix(),
        ) {
        assert forall|j: int| 0 <= j < texts.len() implies #[trigger] texts[j] != arms_flag()
            && !starts_with(texts[j], arms_eq_prefix()) by {
            assert(texts[j] == args[j]@);
        }
        law_env_arms_in_force(
            texts,
            match env_arms {
                Some(a) => Some(a@),
                None => None,
            },
        );
    }
}

/// The characters of concatenated arguments are the concatenated
/// characters: with [`scan_args`]' contract, this carries each law stated
/// over the walk of `texts_of(args) + extra` to the strings `args` followed
/// by strings whose characters are `extra`.
pub proof fn law_texts_of_concat(a: Seq<String>, b: Seq<String>)
    ensures
        texts_of(a + b) == texts_of(a) + texts_of(b),
{
    assert(texts_of(a + b) =~= texts_of(a) + texts_of(b));
}

/// Without an `--arms` argument the environment decides: when no argument
/// is `--arms` or starts with `--arms=`, the arms configuration in force
/// after the walk is exactly the environment's value when it is set, and
/// `right,left` otherwise.
pub proof fn law_env_arms_in_force(args: Seq<Seq<char>>, env_arms: Option<Seq<char>>)
    requires
        forall|j: int|
            0 <= j < args.len() ==> #[trigger] args[j] != arms_flag() && !starts_with(
                args[j],
                arms_eq_prefix(),
            ),
    ensures
        scan_model(args, env_arms).arms == match env_arms {
            Some(a) => a,
            None => seq!['r', 'i', 'g', 'h', 't', ',', 'l', 'e', 'f', 't'],
        },
{
    lemma_scan_keeps_arms(args, 0, initial_model(env_arms));
}

/// A walk over arguments none of which sets the arms keeps the arms it
/// started with.
proof fn lemma_scan_keeps_arms(args: Seq<Seq<char>>, i: int, m: ScanModel)
    requires
        0 <= i <= args.len(),
        forall|j: int|
            i <= j < args.len() ==> #[trigger] args[j] != arms_flag() && !starts_with(
                args[j],
                arms_eq_prefix(),
            ),
    ensures
        scan_from(args, i, m).arms == m.arms,
    decreases args.len() - i,
{
    if i < args.len() {
        let x = args[i];
        assert(x != arms_flag() && !starts_with(x, arms_eq_prefix()));
        if x == upsample_flag() {
            lemma_scan_keeps_arms(args, i + 1, ScanModel { upsample: true, ..m });
        } else if x == filter_flag() {
            lemma_scan_keeps_arms(args, i + 1, ScanModel { filter: true, ..m });
        } else if starts_with(x, control_hz_eq_prefix()) {
            lemma_scan_keeps_arms(
                args,
                i + 1,
                ScanModel {
                    control_hz_texts: m.control_hz_texts.push(x.skip(control_hz_eq_prefix().len() as int)),
                    ..m
                },
            );
        } else if x == control_hz_flag() {
            if i + 2 <= args.len() {
                lemma_scan_keeps_arms(
                    args,
                    i + 2,
                    ScanModel { control_hz_texts: m.control_hz_texts.push(args[i + 1]), ..m },
                );
            }
        } else {
            lemma_scan_keeps_arms(args, i + 1, m);
        }
    }
}

/// Walking `a + b` from a position inside `a` is walking `a`, then `b` from
/// where the walk of `a` left off, as long as the walk of `a` did not stop at
/// a flag missing its value.
pub proof fn lemma_scan_concat(a: Seq<Seq<char>>, b: Seq<Seq<char>>, i: int, m: ScanModel)
    requires
        0 <= i <= a.len(),
        m.missing_value is None,
        scan_from(a, i, m).missing_value is None,
    ensures
        scan_from(a + b, i, m) == scan_from(b, 0, scan_from(a, i, m)),
    decreases a.len() - i,
{
    let ab = a + b;
    if i == a.len() {
        assert(ab.skip(i) =~= b);
        assert(b.skip(0) =~= b);
        lemma_scan_shift(ab, b, i, 0, m);
    } else {
        let x = a[i];
        assert(ab[i] == x);
        if starts_with(x, arms_eq_prefix()) {
            lemma_scan_concat(a, b, i + 1, ScanModel { arms: x.skip(arms_eq_prefix().len() as int), ..m });
        } else if x == arms_flag() {
            assert(i + 1 < a.len());
            assert(ab[i + 1] == a[i + 1]);
            lemma_scan_concat(a, b, i + 2, ScanModel { arms: a[i + 1], ..m });
        } else if x == upsample_flag() {
            lemma_scan_concat(a, b, i + 1, ScanModel { upsample: true, ..m });
        } else if x == filter_flag() {
            lemma_scan_concat(a, b, i + 1, ScanModel { filter: true, ..m });
        } else if starts_with(x, control_hz_eq_prefix()) {
            lemma_scan_concat(
                a,
                b,
                i + 1,
                ScanModel {
                    control_hz_texts: m.control_hz_texts.push(
                        x.skip(control_hz_eq_prefix().len() as int),
                    ),
                    ..m
                },
            );
        } else if x == control_hz_flag() {
            assert(i + 1 < a.len());
            assert(ab[i + 1] == a[i + 1]);
            lemma_scan_concat(
                a,
                b,
                i + 2,
                ScanModel { control_hz_texts: m.control_hz_texts.push(a[i + 1]), ..m },
            );
        } else {
            lemma_scan_concat(a, b, i + 1, m);
        }
    }
}

/// Walking `s` from position `j` is walking `t` from position `k` when the
/// rest of `s` from `j` is the rest of `t` from `k`.
proof fn lemma_scan_shift(s: Seq<Seq<char>>, t: Seq<Seq<char>>, j: int, k: int, m: ScanModel)
    requires
        0 <= j <= s.len(),
        0 <= k <= t.len(),
        s.skip(j) == t.skip(k),
    ensures
        scan_from(s, j, m) == scan_from(t, k, m),
    decreases s.len() - j,
{
    assert(s.len() - j == t.skip(k).len());
    if j < s.len() {
        assert(s[j] == s.skip(j)[0]);
        assert(t[k] == t.skip(k)[0]);
        if j + 1 < s.len() {
            assert(s[j + 1] == s.skip(j)[1]);
            assert(t[k + 1] == t.skip(k)[1]);
        }
        assert(s.skip(j + 1) =~= s.skip(j).skip(1));
        assert(t.skip(k + 1) =~= t.skip(k).skip(1));
        if j + 2 <= s.len() {
            assert(s.skip(j + 2) =~= s.skip(j).skip(2));
            assert(t.skip(k + 2) =~= t.skip(k).skip(2));
        }
        let x = s[j];
        let m1 = if starts_with(x, arms_eq_prefix()) {
            ScanModel { arms: x.skip(arms_eq_prefix().len() as int), ..m }
        } else if x == upsample_flag() {
            ScanModel { upsample: true, ..m }
        } else if x == filter_flag() {
            ScanModel { filter: true, ..m }
        } else if starts_with(x, control_hz_eq_prefix()) {
            ScanModel {
                control_hz_texts: m.control_hz_texts.push(x.skip(control_hz_eq_prefix().len() as int)),
                ..m
            }
        } else {
            m
        };
        lemma_scan_shift(s, t, j + 1, k + 1, m1);
        if j + 2 <= s.len() {
            lemma_scan_shift(s, t, j + 2, k + 2, ScanModel { arms: s[j + 1], ..m });
            lemma_scan_shift(
                s,
                t,
                j + 2,
                k + 2,
                ScanModel { control_hz_texts: m.control_hz_texts.push(s[j + 1]), ..m },
            );
        }
    }
}

/// The last `--arms` wins: appending `--arms value` to arguments whose walk
/// completes leaves `value` as the arms configuration, whatever came before
/// and whatever the environment said.
pub proof fn law_last_arms_flag_wins(
    args: Seq<Seq<char>>,
    env_arms: Option<Seq<char>>,
    value: Seq<char>,
)
    requires
        scan_model(args, env_arms).missing_value is None,
    ensures
        scan_model(args + seq![arms_flag(), value], env_arms).arms == value,
        scan_model(args + seq![arms_eq_prefix() + value], env_arms).arms == value,
{
    let m0 = ScanModel {
        arms: match env_arms {
            Some(a) => a,
            None => default_arms(),
        },
        upsample: false,
        filter: false,
        control_hz_texts: Seq::empty(),
        missing_value: None,
    };
    let mid = scan_from(args, 0, m0);
    let tail1 = seq![arms_flag(), value];
    lemma_scan_concat(args, tail1, 0, m0);
    assert(!starts_with(arms_flag(), arms_eq_prefix()));
    assert(scan_from(tail1, 0, mid) == scan_from(tail1, 2, ScanModel { arms: value, ..mid }));
    let flag = arms_eq_prefix() + value;
    let tail2 = seq![flag];
    lemma_scan_concat(args, tail2, 0, m0);
    assert(flag.subrange(0, arms_eq_prefix().len() as int) =~= arms_eq_prefix());
    assert(flag.skip(arms_eq_prefix().len() as int) =~= value);
    assert(tail2[0] == flag);
    assert(starts_with(tail2[0], arms_eq_prefix()));
    assert(scan_from(tail2, 0, mid) == scan_from(
        tail2,
        1,
        ScanModel { arms: flag.skip(arms_eq_prefix().len() as int), ..mid },
    ));
}

/// An explicit `--arms` overrides the environment: when the arguments start
/// with `--arms value`, the whole walk is the same whatever the environment
/// said.
pub proof fn law_explicit_arms_overrides_env(
    value: Seq<char>,
    rest: Seq<Seq<char>>,
    env_a: Option<Seq<char>>,
    env_b: Option<Seq<char>>,
)
    ensures
        scan_model(seq![arms_flag(), value] + rest, env_a) == scan_model(
            seq![arms_flag(), value] + rest,
            env_b,
        ),
{
    let args = seq![arms_flag(), value] + rest;
    assert(args[0] == arms_flag());
    assert(args[1] == value);
    assert(!starts_with(arms_flag(), arms_eq_prefix()));
}

/// The mathematical outcome of resolving the arguments.
pub enum CliOutcome<H> {
    /// The options in force.
    Options {
        /// The arms configuration.
        arms: Seq<char>,
        /// Whether to upsample.
        upsample: bool,
        /// Whether to filter.
        filter: bool,
        /// The control frequency.
        control_hz: H,
    },
    /// The first `--control-hz` value that is not a number.
    InvalidControlHz(Seq<char>),
    /// A trailing flag missing its value.
    Missing(MissingFlagValue),
}

/// The index of the first `None` in `parsed` at or after `i`, or its length
/// when there is none.
pub open spec fn first_none_from<H>(parsed: Seq<Option<H>>, i: int) -> int
    decreases parsed.len() - i,
{
    if i >= parsed.len() || i < 0 {
        parsed.len() as int
    } else if parsed[i] is None {
        i
    } else {
        first_none_from(parsed, i + 1)
    }
}

/// The outcome of a walk `m`, given the numeric reading of each of its
/// `--control-hz` values.
pub open spec fn outcome<H>(m: ScanModel, parsed: Seq<Option<H>>, default_hz: H) -> CliOutcome<H> {
    let k = first_none_from(parsed, 0);
    if k < parsed.len() {
        CliOutcome::InvalidControlHz(m.control_hz_texts[k])
    } else if m.missing_value is Some {
        CliOutcome::Missing(m.missing_value->0)
    } else {
        CliOutcome::Options {
            arms: m.arms,
            upsample: m.upsample,
            filter: m.filter,
            control_hz: if parsed.len() == 0 {
                default_hz
            } else {
                parsed.last()->0
            },
        }
    }
}

/// The mathematical outcome a resolved result stands for.
pub open spec fn outcome_of<H>(options: Result<CliOptions<H>, CliError>) -> CliOutcome<H> {
    match options {
        Ok(o) => CliOutcome::Options {
            arms: o.arms@,
            upsample: o.upsample,
            filter: o.filter,
            control_hz: o.control_hz,
        },
        Err(CliError::InvalidControlHz(v)) => CliOutcome::InvalidControlHz(v@),
        Err(CliError::MissingArmsValue) => CliOutcome::Missing(MissingFlagValue::Arms),
        Err(CliError::MissingControlHzValue) => CliOutcome::Missing(MissingFlagValue::ControlHz),
    }
}

/// `first_none_from` finds the first `None` at or after `i`.
pub proof fn lemma_first_none<H>(parsed: Seq<Option<H>>, i: int)
    requires
        0 <= i <= parsed.len(),
    ensures
        i <= first_none_from(parsed, i) <= parsed.len(),
        forall|j: int| i <= j < first_none_from(parsed, i) ==> parsed[j] is Some,
        first_none_from(parsed, i) < parsed.len() ==> parsed[first_none_from(parsed, i)] is None,
    decreases parsed.len() - i,
{
    if i < parsed.len() && parsed[i] is Some {
        lemma_first_none(parsed, i + 1);
    }
}

/// The first `None` of `parsed` is at `k`.
proof fn lemma_first_none_at<H>(parsed: Seq<Option<H>>, k: int)
    requires
        0 <= k <= parsed.len(),
        forall|j: int| 0 <= j < k ==> parsed[j] is Some,
        k < parsed.len() ==> parsed[k] is None,
    ensures
        first_none_from(parsed, 0) == k,
{
    lemma_first_none(parsed, 0);
    let r = first_none_from(parsed, 0);
    if r < k {
        assert(parsed[r] is Some);
    } else if r > k {
        assert(parsed[k] is Some);
    }
}

/// The walk only ever appends `--control-hz` values to those found before.
proof fn lemma_scan_keeps_texts(a: Seq<Seq<char>>, i: int, m: ScanModel)
    requires
        0 <= i <= a.len(),
    ensures
        m.control_hz_texts.len() <= scan_from(a, i, m).control_hz_texts.len(),
        scan_from(a, i, m).control_hz_texts.subrange(0, m.control_hz_texts.len() as int)
            == m.control_hz_texts,
    decreases a.len() - i,
{
    if i < a.len() {
        let x = a[i];
        if starts_with(x, arms_eq_prefix()) {
            lemma_scan_keeps_texts(a, i + 1, ScanModel { arms: x.skip(arms_eq_prefix().len() as int), ..m });
        } else if x == arms_flag() {
            if i + 1 < a.len() {
                lemma_scan_keeps_texts(a, i + 2, ScanModel { arms: a[i + 1], ..m });
            } else {
                assert(m.control_hz_texts.subrange(0, m.control_hz_texts.len() as int) =~= m.control_hz_texts);
            }
        } else if x == upsample_flag() {
            lemma_scan_keeps_texts(a, i + 1, ScanModel { upsample: true, ..m });
        } else if x == filter_flag() {
            lemma_scan_keeps_texts(a, i + 1, ScanModel { filter: true, ..m });
        } else if starts_with(x, control_hz_eq_prefix()) {
            let m1 = ScanModel {
                control_hz_texts: m.control_hz_texts.push(x.skip(control_hz_eq_prefix().len() as int)),
                ..m
            };
            lemma_scan_keeps_texts(a, i + 1, m1);
            let r = scan_from(a, i + 1, m1).control_hz_texts;
            assert(r.subrange(0, m.control_hz_texts.len() as int) =~= r.subrange(
                0,
                m1.control_hz_texts.len() as int,
            ).subrange(0, m.control_hz_texts.len() as int));
        } else if x == control_hz_flag() {
            if i + 1 < a.len() {
                let m1 = ScanModel { control_hz_texts: m.control_hz_texts.push(a[i + 1]), ..m };
                lemma_scan_keeps_texts(a, i + 2, m1);
                let r = scan_from(a, i + 2, m1).control_hz_texts;
                assert(r.subrange(0, m.control_hz_texts.len() as int) =~= r.subrange(
                    0,
                    m1.control_hz_texts.len() as int,
                ).subrange(0, m.control_hz_texts.len() as int));
            } else {
                assert(m.control_hz_texts.subrange(0, m.control_hz_texts.len() as int) =~= m.control_hz_texts);
            }
        } else {
            lemma_scan_keeps_texts(a, i + 1, m);
        }
    } else {
        assert(m.control_hz_texts.subrange(0, m.control_hz_texts.len() as int) =~= m.control_hz_texts);
    }
}

/// When the outcome is a set of options, every reading is a number and the
/// walk completed.
proof fn lemma_options_outcome<H>(m: ScanModel, parsed: Seq<Option<H>>, default_hz: H)
    requires
        outcome(m, parsed, default_hz) is Options,
    ensures
        m.missing_value is None,
        forall|j: int| 0 <= j < parsed.len() ==> parsed[j] is Some,
{
    lemma_first_none(parsed, 0);
}

/// The last occurrence of a flag wins over the whole resolution: appending
/// `--arms v` (either form), `--control-hz s` (either form, `s` reading as
/// `x`), `--filter` or `--upsample` to arguments that resolve to options
/// changes exactly the one option.
pub proof fn law_last_occurrence_wins<H>(
    args: Seq<Seq<char>>,
    env_arms: Option<Seq<char>>,
    parsed: Seq<Option<H>>,
    default_hz: H,
    v: Seq<char>,
    s: Seq<char>,
    x: H,
)
    requires
        parsed.len() == scan_model(args, env_arms).control_hz_texts.len(),
        outcome(scan_model(args, env_arms), parsed, default_hz) is Options,
    ensures
        ({
            let o = outcome(scan_model(args, env_arms), parsed, default_hz);
            &&& outcome(scan_model(args + seq![arms_flag(), v], env_arms), parsed, default_hz)
                == CliOutcome::Options {
                arms: v,
                upsample: o->upsample,
                filter: o->filter,
                control_hz: o->control_hz,
            }
            &&& outcome(scan_model(args + seq![arms_eq_prefix() + v], env_arms), parsed, default_hz)
                == CliOutcome::Options {
                arms: v,
                upsample: o->upsample,
                filter: o->filter,
                control_hz: o->control_hz,
            }
            &&& outcome(
                scan_model(args + seq![control_hz_flag(), s], env_arms),
                parsed.push(Some(x)),
                default_hz,
            ) == CliOutcome::Options {
                arms: o->arms,
                upsample: o->upsample,
                filter: o->filter,
                control_hz: x,
            }
            &&& outcome(
                scan_model(args + seq![control_hz_eq_prefix() + s], env_arms),
                parsed.push(Some(x)),
                default_hz,
            ) == CliOutcome::Options {
                arms: o->arms,
                upsample: o->upsample,
                filter: o->filter,
                control_hz: x,
            }
            &&& outcome(scan_model(args + seq![filter_flag()], env_arms), parsed, default_hz)
                == CliOutcome::Options {
                arms: o->arms,
                upsample: o->upsample,
                filter: true,
                control_hz: o->control_hz,
            }
            &&& outcome(scan_model(args + seq![upsample_flag()], env_arms), parsed, default_hz)
                == CliOutcome::Options {
                arms: o->arms,
                upsample: true,
                filter: o->filter,
                control_hz: o->control_hz,
            }
        }),
{
    let m0 = initial_model(env_arms);
    let mid = scan_from(args, 0, m0);
    lemma_options_outcome(mid, parsed, default_hz);
    lemma_first_none_at(parsed, parsed.len() as int);
    let pushed = parsed.push(Some(x));
    assert forall|j: int| 0 <= j < pushed.len() implies pushed[j] is Some by {
        if j < parsed.len() {
            assert(pushed[j] == parsed[j]);
        }
    }
    lemma_first_none_at(pushed, pushed.len() as int);

    let t1 = seq![arms_flag(), v];
    lemma_scan_concat(args, t1, 0, m0);
    assert(!starts_with(t1[0], arms_eq_prefix()));
    assert(scan_from(t1, 0, mid) == scan_from(t1, 2, ScanModel { arms: v, ..mid }));

    let f2 = arms_eq_prefix() + v;
    let t2 = seq![f2];
    lemma_scan_concat(args, t2, 0, m0);
    assert(f2.subrange(0, arms_eq_prefix().len() as int) =~= arms_eq_prefix());
    assert(f2.skip(arms_eq_prefix().len() as int) =~= v);
    assert(t2[0] == f2);
    assert(scan_from(t2, 0, mid) == scan_from(t2, 1, ScanModel { arms: v, ..mid }));

    lemma_append_control_hz(args, env_arms, s);

    let t5 = seq![filter_flag()];
    lemma_scan_concat(args, t5, 0, m0);
    assert(t5[0] == filter_flag());
    assert(t5[0][2] == 'f');
    assert(!starts_with(t5[0], arms_eq_prefix()));
    assert(scan_from(t5, 0, mid) == scan_from(t5, 1, ScanModel { filter: true, ..mid }));

    let t6 = seq![upsample_flag()];
    lemma_scan_concat(args, t6, 0, m0);
    assert(t6[0] == upsample_flag());
    assert(t6[0][2] == 'u');
    assert(!starts_with(t6[0], arms_eq_prefix()));
    assert(scan_from(t6, 0, mid) == scan_from(t6, 1, ScanModel { upsample: true, ..mid }));
}

/// A flag left without a value fails the resolution: arguments that resolve
/// to options fail once `--arms` or `--control-hz` is appended as the last
/// argument.
pub proof fn law_trailing_flag_fails<H>(
    args: Seq<Seq<char>>,
    env_arms: Option<Seq<char>>,
    parsed: Seq<Option<H>>,
    default_hz: H,
)
    requires
        parsed.len() == scan_model(args, env_arms).control_hz_texts.len(),
        outcome(scan_model(args, env_arms), parsed, default_hz) is Options,
    ensures
        outcome(scan_model(args + seq![arms_flag()], env_arms), parsed, default_hz)
            == CliOutcome::<H>::Missing(MissingFlagValue::Arms),
        outcome(scan_model(args + seq![control_hz_flag()], env_arms), parsed, default_hz)
            == CliOutcome::<H>::Missing(MissingFlagValue::ControlHz),
{
    let m0 = initial_model(env_arms);
    let mid = scan_from(args, 0, m0);
    lemma_options_outcome(mid, parsed, default_hz);
    lemma_first_none_at(parsed, parsed.len() as int);
    let t1 = seq![arms_flag()];
    lemma_scan_concat(args, t1, 0, m0);
    assert(t1[0] == arms_flag());
    assert(!starts_with(t1[0], arms_eq_prefix()));
    let t2 = seq![control_hz_flag()];
    lemma_scan_concat(args, t2, 0, m0);
    assert(t2[0] == control_hz_flag());
    assert(t2[0][2] == 'c');
    assert(!starts_with(t2[0], arms_eq_prefix()));
}

/// A value that is not a number fails the resolution for good: once the
/// walk of some arguments completes with a `--control-hz` value that is not
/// a number, any further arguments (with any readings of their values)
/// resolve to the same failure.
pub proof fn law_invalid_value_persists<H>(
    args: Seq<Seq<char>>,
    more: Seq<Seq<char>>,
    env_arms: Option<Seq<char>>,
    parsed: Seq<Option<H>>,
    more_parsed: Seq<Option<H>>,
    default_hz: H,
)
    requires
        scan_model(args, env_arms).missing_value is None,
        parsed.len() == scan_model(args, env_arms).control_hz_texts.len(),
        (parsed + more_parsed).len() == scan_model(args + more, env_arms).control_hz_texts.len(),
        outcome(scan_model(args, env_arms), parsed, default_hz) is InvalidControlHz,
    ensures
        outcome(scan_model(args + more, env_arms), parsed + more_parsed, default_hz) == outcome(
            scan_model(args, env_arms),
            parsed,
            default_hz,
        ),
{
    let m0 = initial_model(env_arms);
    let mid = scan_from(args, 0, m0);
    lemma_scan_concat(args, more, 0, m0);
    lemma_scan_keeps_texts(more, 0, mid);
    lemma_first_none(parsed, 0);
    let k = first_none_from(parsed, 0);
    let all = parsed + more_parsed;
    assert forall|j: int| 0 <= j < k implies all[j] is Some by {
        assert(all[j] == parsed[j]);
    }
    assert(all[k] == parsed[k]);
    lemma_first_none_at(all, k);
    let texts = scan_from(more, 0, mid).control_hz_texts;
    assert(texts.subrange(0, mid.control_hz_texts.len() as int)[k] == texts[k]);
}

/// What appending `--control-hz s`, in either form, does to a completed
/// walk: `s` is appended to the values found, and nothing else changes.
proof fn lemma_append_control_hz(args: Seq<Seq<char>>, env_arms: Option<Seq<char>>, s: Seq<char>)
    requires
        scan_model(args, env_arms).missing_value is None,
    ensures
        ({
            let mid = scan_model(args, env_arms);
            let after = ScanModel { control_hz_texts: mid.control_hz_texts.push(s), ..mid };
            &&& scan_model(args + seq![control_hz_flag(), s], env_arms) == after
            &&& scan_model(args + seq![control_hz_eq_prefix() + s], env_arms) == after
        }),
{
    let m0 = initial_model(env_arms);
    let mid = scan_from(args, 0, m0);
    let t3 = seq![control_hz_flag(), s];
    lemma_scan_concat(args, t3, 0, m0);
    assert(t3[0] == control_hz_flag());
    assert(t3[0][2] == 'c');
    assert(!starts_with(t3[0], arms_eq_prefix()));
    assert(scan_from(t3, 0, mid) == scan_from(
        t3,
        2,
        ScanModel { control_hz_texts: mid.control_hz_texts.push(s), ..mid },
    ));
    let f4 = control_hz_eq_prefix() + s;
    let t4 = seq![f4];
    lemma_scan_concat(args, t4, 0, m0);
    assert(t4[0] == f4);
    assert(f4[2] == 'c');
    assert(!starts_with(f4, arms_eq_prefix()));
    assert(f4 != arms_flag());
    assert(f4 != upsample_flag());
    assert(f4 != filter_flag());
    assert(f4.subrange(0, control_hz_eq_prefix().len() as int) =~= control_hz_eq_prefix());
    assert(f4.skip(control_hz_eq_prefix().len() as int) =~= s);
    assert(scan_from(t4, 0, mid) == scan_from(
        t4,
        1,
        ScanModel { control_hz_texts: mid.control_hz_texts.push(s), ..mid },
    ));
}

/// A `--control-hz` value that is not a number fails the whole resolution:
/// appending `--control-hz s` (either form), where `s` does not read as a
/// number, to arguments that resolve to options, and then any further
/// arguments `more` (with any readings of their values), resolves to the
/// error naming `s`.
pub proof fn law_unparsable_value_fails<H>(
    args: Seq<Seq<char>>,
    env_arms: Option<Seq<char>>,
    parsed: Seq<Option<H>>,
    default_hz: H,
    s: Seq<char>,
    more: Seq<Seq<char>>,
    more_parsed: Seq<Option<H>>,
    more_parsed_eq: Seq<Option<H>>,
)
    requires
        parsed.len() == scan_model(args, env_arms).control_hz_texts.len(),
        outcome(scan_model(args, env_arms), parsed, default_hz) is Options,
        (parsed.push(None) + more_parsed).len() == scan_model(
            args + seq![control_hz_flag(), s] + more,
            env_arms,
        ).control_hz_texts.len(),
        (parsed.push(None) + more_parsed_eq).len() == scan_model(
            args + seq![control_hz_eq_prefix() + s] + more,
            env_arms,
        ).control_hz_texts.len(),
    ensures
        outcome(
            scan_model(args + seq![control_hz_flag(), s] + more, env_arms),
            parsed.push(None) + more_parsed,
            default_hz,
        ) == CliOutcome::<H>::InvalidControlHz(s),
        outcome(
            scan_model(args + seq![control_hz_eq_prefix() + s] + more, env_arms),
            parsed.push(None) + more_parsed_eq,
            default_hz,
        ) == CliOutcome::<H>::InvalidControlHz(s),
{
    let mid = scan_model(args, env_arms);
    lemma_options_outcome(mid, parsed, default_hz);
    lemma_append_control_hz(args, env_arms, s);
    let pushed = parsed.push(None);
    assert forall|j: int| 0 <= j < parsed.len() implies pushed[j] is Some by {
        assert(pushed[j] == parsed[j]);
    }
    lemma_first_none_at(pushed, parsed.len() as int);
    let after = ScanModel { control_hz_texts: mid.control_hz_texts.push(s), ..mid };
    assert(outcome(after, pushed, default_hz) == CliOutcome::<H>::InvalidControlHz(s));
    law_invalid_value_persists(
        args + seq![control_hz_flag(), s],
        more,
        env_arms,
        pushed,
        more_parsed,
        default_hz,
    );
    law_invalid_value_persists(
        args + seq![control_hz_eq_prefix() + s],
        more,
        env_arms,
        pushed,
        more_parsed_eq,
        default_hz,
    );
}

/// Decides the outcome of the walk, given the numeric reading of each
/// `--control-hz` value (`None` where the value is not a number).
///
/// The first value that is not a number is an error (it comes before any
/// trailing flag that misses its value); otherwise a trailing flag that
/// misses its value is an error; otherwise the last value given is the
/// control frequency, or `default_hz` when none was given.
pub fn finish_args<H: Copy>(scan: ArgScan, parsed: &[Option<H>], default_hz: H) -> (options:
    Result<CliOptions<H>, CliError>)
    requires
        parsed@.len() == scan.control_hz_texts@.len(),
    ensures
        outcome_of(options) == outcome(scan.model(), parsed@, default_hz),
        (exists|i: int| 0 <= i < parsed@.len() && parsed@[i] is None) ==> exists|k: int|
            {
                &&& 0 <= k < parsed@.len()
                &&& parsed@[k] is None
                &&& forall|j: int| 0 <= j < k ==> parsed@[j] is Some
                &&& options matches Err(CliError::InvalidControlHz(v))
                &&& v@ == scan.control_hz_texts@[k]@
            },
        (forall|i: int| 0 <= i < parsed@.len() ==> parsed@[i] is Some) ==> {
            match scan.missing_value {
                Some(m) => options == Err::<CliOptions<H>, CliError>(m.error()),
                None => options matches Ok(o) && {
                    &&& o.arms == scan.arms
                    &&& o.upsample == scan.upsample
                    &&& o.filter == scan.filter
                    &&& o.control_hz == if parsed@.len() == 0 {
                        default_hz
                    } else {
                        parsed@.last()->0
                    }
                },
            }
        },
{
    let n = parsed.len();
    let mut i: usize = 0;
    while i < n
        invariant
            n == parsed@.len(),
            n == scan.control_hz_texts@.len(),
            i <= n,
            forall|j: int| 0 <= j < i ==> parsed@[j] is Some,
        decreases n - i,
    {
        if parsed[i].is_none() {
            let text = scan.control_hz_texts[i].clone();
            proof {
                lemma_first_none_at(parsed@, i as int);
            }
            return Err(CliError::InvalidControlHz(text));
        }
        i = i + 1;
    }
    proof {
        lemma_first_none_at(parsed@, n as int);
    }
    match scan.missing_value {
        Some(MissingFlagValue::Arms) => Err(CliError::MissingArmsValue),
        Some(MissingFlagValue::ControlHz) => Err(CliError::MissingControlHzValue),
        None => {
            let control_hz = if n == 0 {
                default_hz
            } else {
                match parsed[n - 1] {
                    Some(hz) => hz,
                    None => default_hz,
                }
            };
            Ok(CliOptions { arms: scan.arms, upsample: scan.upsample, filter: scan.filter, control_hz })
        },
    }
}

} // verus!
