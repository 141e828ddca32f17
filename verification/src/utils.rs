//! Helpers of the command line: where the password comes from, and sizes
//! with a unit.

use crate::parsing::{Arguments, ArgumentsView};
use crate::text::{decimal_value, str_eq};
use regex::Regex;
use vstd::prelude::*;
use vstd::string::*;

verus! {

/// Why no password can be had from the arguments.
#[derive(Clone, Copy, Debug, PartialEq, Eq, Structural)]
pub enum PasswordError {
    /// Both a password and a password file are given.
    Conflict,
    /// Neither a password nor a password file is given.
    Missing,
}

impl PasswordError {
    /// The text of the error.
    pub fn message(self) -> (res: &'static str)
        ensures
            res@ == match self {
                PasswordError::Conflict => "-p/--password and -P/--passfile are in conflict"@,
                PasswordError::Missing => "Please specify password or passfile"@,
            },
    {
        match self {
            PasswordError::Conflict => "-p/--password and -P/--passfile are in conflict",
            PasswordError::Missing => "Please specify password or passfile",
        }
    }
}

/// Where the password comes from, as plain values.
pub enum SourceView {
    /// The password itself.
    Literal(Seq<char>),
    /// The path of a file that holds the password.
    File(Seq<char>),
}

/// Where the password comes from.
#[derive(Debug)]
pub enum PasswordSource {
    /// The password itself.
    Literal(String),
    /// The path of a file that holds the password; the password is the
    /// content of the file without the white space around it.
    File(String),
}

impl View for PasswordSource {
    type V = SourceView;

    open spec fn view(&self) -> SourceView {
        match self {
            PasswordSource::Literal(text) => SourceView::Literal(text@),
            PasswordSource::File(path) => SourceView::File(path@),
        }
    }
}

/// Where the password comes from, by the flags `password` and `passfile`:
/// both at once are a conflict; a flag that is there without a value counts
/// as missing.
pub open spec fn password_source(args: ArgumentsView) -> Result<SourceView, PasswordError> {
    if args.flags.dom().contains("password"@) && args.flags.dom().contains("passfile"@) {
        Err(PasswordError::Conflict)
    } else if args.flags.dom().contains("password"@) {
        match args.flags["password"@] {
            Some(text) => Ok(SourceView::Literal(text)),
            None => Err(PasswordError::Missing),
        }
    } else if args.flags.dom().contains("passfile"@) {
        match args.flags["passfile"@] {
            Some(path) => Ok(SourceView::File(path)),
            None => Err(PasswordError::Missing),
        }
    } else {
        Err(PasswordError::Missing)
    }
}

/// Where the password comes from, by the flags `password` and `passfile`.
pub fn get_password(args: &Arguments) -> (res: Result<PasswordSource, PasswordError>)
    ensures
        match res {
            Ok(source) => password_source(args@) == Ok::<SourceView, PasswordError>(source@),
            Err(e) => password_source(args@) == Err::<SourceView, PasswordError>(e),
        },
{
    let password = args.flags.get("password");
    let passfile = args.flags.get("passfile");
    match (password, passfile) {
        (Some(_), Some(_)) => Err(PasswordError::Conflict),
        (Some(value), None) => match value {
            Some(text) => Ok(PasswordSource::Literal(text.clone())),
            None => Err(PasswordError::Missing),
        },
        (None, Some(value)) => match value {
            Some(path) => Ok(PasswordSource::File(path.clone())),
            None => Err(PasswordError::Missing),
        },
        (None, None) => Err(PasswordError::Missing),
    }
}

/// What matching a pattern against a text gives, as the `regex` crate has it:
/// nothing where the pattern is no regular expression; else nothing where the
/// text does not match, or the text of every group of the leftmost match, the
/// whole match first, with nothing for a group that took no part.
pub uninterp spec fn regex_captures(pattern: Seq<char>, text: Seq<char>) -> Option<
    Option<Seq<Option<Seq<char>>>>,
>;

/// The groups of a match, as plain values.
pub open spec fn groups_view(groups: Vec<Option<String>>) -> Seq<Option<Seq<char>>> {
    groups@.map_values(|group: Option<String>| crate::parsing::value_view(group))
}

/// What matching gave, as plain values.
pub open spec fn captures_view(found: Option<Option<Vec<Option<String>>>>) -> Option<
    Option<Seq<Option<Seq<char>>>>,
> {
    match found {
        None => None,
        Some(None) => Some(None),
        Some(Some(groups)) => Some(Some(groups_view(groups))),
    }
}

/// `regex::Regex::new` and `Regex::captures`: compiles `pattern` and matches
/// it against `text`. The result is nothing where the pattern does not
/// compile; else what `captures` returns, each group as its text.
#[verifier::external_body]
fn captures(pattern: &str, text: &str) -> (res: Option<Option<Vec<Option<String>>>>)
    ensures
        captures_view(res) == regex_captures(pattern@, text@),
{
    let re = Regex::new(pattern).ok()?;
    Some(
        re.captures(text).map(
            |found| found.iter().map(|group| group.map(|m| m.as_str().to_string())).collect(),
        ),
    )
}

/// Why a size could not be read.
#[derive(Clone, Copy, Debug, PartialEq, Eq, Structural)]
pub enum SizeError {
    /// The text is not a number with an optional unit.
    Invalid,
}

/// A size as it was given, as plain values.
pub struct SizeView {
    /// The number: digits and dots.
    pub number: Seq<char>,
    /// The number of bytes in the unit.
    pub multiplier: u64,
}

/// A size as it was given: a number and the unit that it counts.
#[derive(Debug)]
pub struct SizeSpec {
    /// The number: digits and dots.
    pub number: String,
    /// The number of bytes in the unit.
    pub multiplier: u64,
}

impl View for SizeSpec {
    type V = SizeView;

    open spec fn view(&self) -> SizeView {
        SizeView { number: self.number@, multiplier: self.multiplier }
    }
}

/// The number of bytes in a unit: 1024 for `K`, the square of that for `M`,
/// the cube for `G`, and one for no unit or any other.
pub open spec fn unit_bytes(unit: Option<Seq<char>>) -> u64 {
    match unit {
        Some(unit) => if unit == "K"@ {
            1024
        } else if unit == "M"@ {
            0x10_0000
        } else if unit == "G"@ {
            0x4000_0000
        } else {
            1
        },
        None => 1,
    }
}

/// The size that the groups of a match of the size pattern stand for: the
/// first group is the number, the second the unit. No match, a pattern that
/// did not compile, and a match without its first group give no size.
pub open spec fn size_of_captures(found: Option<Option<Seq<Option<Seq<char>>>>>) -> Result<
    SizeView,
    SizeError,
> {
    match found {
        Some(Some(groups)) => if groups.len() >= 2 && groups[1] is Some {
            Ok(
                SizeView {
                    number: groups[1]->Some_0,
                    multiplier: unit_bytes(
                        if groups.len() >= 3 {
                            groups[2]
                        } else {
                            None
                        },
                    ),
                },
            )
        } else {
            Err(SizeError::Invalid)
        },
        _ => Err(SizeError::Invalid),
    }
}

/// A size or an error, as plain values.
pub open spec fn size_view(res: Result<SizeSpec, SizeError>) -> Result<SizeView, SizeError> {
    match res {
        Ok(size) => Ok(size@),
        Err(e) => Err(e),
    }
}

/// The number of bytes in the unit `unit`.
fn unit_of(unit: Option<&String>) -> (res: u64)
    ensures
        res == unit_bytes(
            match unit {
                Some(unit) => Some(unit@),
                None => None,
            },
        ),
{
    match unit {
        Some(unit) => {
            if str_eq(unit.as_str(), "K") {
                1024
            } else if str_eq(unit.as_str(), "M") {
                1024 * 1024
            } else if str_eq(unit.as_str(), "G") {
                1024 * 1024 * 1024
            } else {
                1
            }
        },
        None => 1,
    }
}

/// The size that the groups of a match of the size pattern stand for.
pub fn size_from_captures(found: Option<Option<Vec<Option<String>>>>) -> (res: Result<
    SizeSpec,
    SizeError,
>)
    ensures
        size_view(res) == size_of_captures(captures_view(found)),
{
    match found {
        Some(Some(groups)) => {
            if groups.len() < 2 {
                return Err(SizeError::Invalid);
            }
            let multiplier = if groups.len() >= 3 {
                unit_of(groups[2].as_ref())
            } else {
                1
            };
            match &groups[1] {
                Some(number) => Ok(SizeSpec { number: number.clone(), multiplier }),
                None => Err(SizeError::Invalid),
            }
        },
        _ => Err(SizeError::Invalid),
    }
}

/// Reads a size: a number of digits and dots, and behind it one of the units
/// `K`, `M` and `G` or none. The text is matched against the pattern
/// `^([0-9.]+)(K|M|G)?$`; the result is the number as it stands and the
/// number of bytes in the unit.
pub fn parse_size(size: &str) -> (res: Result<SizeSpec, SizeError>)
    ensures
        size_view(res) == size_of_captures(regex_captures("^([0-9.]+)(K|M|G)?$"@, size@)),
{
    size_from_captures(captures("^([0-9.]+)(K|M|G)?$", size))
}

/// Whether every character of `text` is a decimal digit.
pub open spec fn all_digits(text: Seq<char>) -> bool {
    forall|i: int| 0 <= i < text.len() ==> '0' <= #[trigger] text[i] <= '9'
}

/// The largest whole number of bytes that is exact in every arithmetic that
/// a caller may use for sizes with a fraction.
pub const EXACT_MAX: u64 = 0x20_0000_0000_0000;

/// The number of bytes of a size whose number is whole, if it is at most
/// `EXACT_MAX`.
pub open spec fn whole_bytes(size: SizeView) -> Option<u64> {
    if size.multiplier >= 1 && size.number.len() > 0 && all_digits(size.number) && decimal_value(
        size.number,
    ) * size.multiplier <= EXACT_MAX {
        Some((decimal_value(size.number) * size.multiplier) as u64)
    } else {
        None
    }
}

impl SizeSpec {
    /// The number of bytes, where the number is written with digits alone and
    /// the size is at most `EXACT_MAX`. A number with a dot, and a larger
    /// size, is left to the caller, who computes it in floating point.
    pub fn whole(&self) -> (res: Option<u64>)
        ensures
            res == whole_bytes(self@),
    {
        let text = self.number.as_str();
        let len = text.unicode_len();
        if len == 0 || self.multiplier == 0 {
            return None;
        }
        let mut value: u64 = 0;
        let mut i: usize = 0;
        while i < len
            invariant
                i <= len,
                len == text@.len(),
                text@ == self.number@,
                self.multiplier >= 1,
                all_digits(text@.take(i as int)),
                value == decimal_value(text@.take(i as int)),
                value <= EXACT_MAX,
            decreases len - i,
        {
            let c = text.get_char(i);
            let ghost prefix = text@.take(i as int);
            let ghost longer = text@.take(i + 1);
            assert(longer.drop_last() =~= prefix);
            assert(longer.last() == c);
            if c < '0' || c > '9' {
                assert(text@[i as int] == c);
                return None;
            }
            let d: u64 = (c as u32 - '0' as u32) as u64;
            assert(all_digits(longer)) by {
                assert forall|k: int| 0 <= k < longer.len() implies '0' <= #[trigger] longer[k]
                    <= '9' by {
                    if k < i {
                        assert(longer[k] == prefix[k]);
                    }
                }
            }
            if value * 10 + d > EXACT_MAX {
                proof {
                    if all_digits(text@) {
                        lemma_value_grows(text@, i + 1);
                        let total = decimal_value(text@);
                        let m = self.multiplier;
                        assert(total * m > EXACT_MAX) by (nonlinear_arith)
                            requires
                                total > EXACT_MAX,
                                m >= 1,
                        ;
                    }
                }
                return None;
            }
            value = value * 10 + d;
            i += 1;
        }
        assert(text@.take(len as int) =~= text@);
        if value > EXACT_MAX / self.multiplier {
            proof {
                let m = self.multiplier;
                assert(value * m > EXACT_MAX) by (nonlinear_arith)
                    requires
                        value > EXACT_MAX / m,
                        m >= 1,
                ;
            }
            return None;
        }
        proof {
            let m = self.multiplier;
            assert(value * m <= EXACT_MAX) by (nonlinear_arith)
                requires
                    value <= EXACT_MAX / m,
                    m >= 1,
            ;
        }
        Some(value * self.multiplier)
    }
}

/// A run of digits spells at least what any of its prefixes spells.
proof fn lemma_value_grows(digits: Seq<char>, n: int)
    requires
        0 <= n <= digits.len(),
        all_digits(digits),
    ensures
        decimal_value(digits.take(n)) <= decimal_value(digits),
    decreases digits.len() - n,
{
    if n < digits.len() {
        lemma_value_grows(digits, n + 1);
        let longer = digits.take(n + 1);
        assert(longer.drop_last() =~= digits.take(n));
        assert(longer.last() == digits[n]);
    } else {
        assert(digits.take(n) =~= digits);
    }
}

} // verus!

/// How binary data is written in stored keys.
pub mod codecs;
