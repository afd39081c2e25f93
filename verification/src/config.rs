//! The argument resolver: it turns the raw argument tokens into a `Config`,
//! or rejects them with a usage error, before any processing begins.

use vstd::prelude::*;
use vstd::string::StrSliceExecFns;
use vstd::string::StringExecFns;
use crate::text::str_eq;

verus! {

/// The resolved configuration: the inputs to read, in order, and the
/// numbering mode. `"-"` among the inputs names standard input.
#[derive(Debug)]
pub struct Config {
    pub files: Vec<String>,
    pub number_lines: bool,
    pub number_nonblank_lines: bool,
}

impl Config {
    /// A well-formed configuration names at least one input and never asks
    /// for both numbering modes at once.
    pub open spec fn wf(&self) -> bool {
        &&& !(self.number_lines && self.number_nonblank_lines)
        &&& self.files@.len() >= 1
    }
}

/// A usage error: the argument tokens do not resolve to a configuration.
#[derive(Debug, PartialEq, Eq)]
pub enum ConfigError {
    /// A token that looks like an option but is not one of the recognized
    /// flags.
    UnknownFlag(String),
    /// Both numbering flags were supplied; they are mutually exclusive.
    ConflictingNumberFlags,
}

/// The token that names standard input.
pub open spec fn dash() -> Seq<char> {
    seq!['-']
}

/// The short and the long flag that number every line.
pub open spec fn is_number_flag(t: Seq<char>) -> bool {
    t == seq!['-', 'n'] || t == seq!['-', '-', 'n', 'u', 'm', 'b', 'e', 'r']
}

/// The short and the long flag that number only non-blank lines.
pub open spec fn is_nonblank_flag(t: Seq<char>) -> bool {
    t == seq!['-', 'b'] || t == seq!['-', '-', 'n', 'u', 'm', 'b', 'e', 'r', '-', 'n', 'o', 'n', 'b', 'l', 'a', 'n', 'k']
}

/// A token that begins with `-` but is neither the standard-input sentinel
/// `-` nor a recognized flag.
pub open spec fn is_unknown_flag(t: Seq<char>) -> bool {
    &&& t.len() >= 1
    &&& t[0] == '-'
    &&& t != dash()
    &&& !is_number_flag(t)
    &&& !is_nonblank_flag(t)
}

/// A token taken as an input name: anything that is not a flag.
pub open spec fn is_positional(t: Seq<char>) -> bool {
    !is_number_flag(t) && !is_nonblank_flag(t) && !is_unknown_flag(t)
}

/// What argument resolution yields: a configuration, or the usage error
/// that rejected the tokens.
pub ghost enum ParseResult {
    Parsed { files: Seq<Seq<char>>, number_lines: bool, number_nonblank_lines: bool },
    UnknownFlag { token: Seq<char> },
    FlagConflict,
}

/// Resolves the remaining tokens, given the inputs and flags gathered so
/// far. Tokens are read left to right; a flag that conflicts with one
/// already set, or an unrecognized flag, rejects the whole sequence; when
/// no input was named the single input is standard input.
pub open spec fn parse_from(
    args: Seq<Seq<char>>,
    files: Seq<Seq<char>>,
    number_lines: bool,
    number_nonblank_lines: bool,
) -> ParseResult
    decreases args.len(),
{
    if args.len() == 0 {
        ParseResult::Parsed {
            files: if files.len() == 0 {
                seq![dash()]
            } else {
                files
            },
            number_lines,
            number_nonblank_lines,
        }
    } else {
        let t = args.first();
        if is_number_flag(t) {
            if number_nonblank_lines {
                ParseResult::FlagConflict
            } else {
                parse_from(args.drop_first(), files, true, number_nonblank_lines)
            }
        } else if is_nonblank_flag(t) {
            if number_lines {
                ParseResult::FlagConflict
            } else {
                parse_from(args.drop_first(), files, number_lines, true)
            }
        } else if is_unknown_flag(t) {
            ParseResult::UnknownFlag { token: t }
        } else {
            parse_from(args.drop_first(), files.push(t), number_lines, number_nonblank_lines)
        }
    }
}

/// Resolves a whole argument sequence, starting from no inputs and no flags.
pub open spec fn spec_parse(args: Seq<Seq<char>>) -> ParseResult {
    parse_from(args, Seq::empty(), false, false)
}

/// Decides `is_number_flag` for one token.
fn number_flag_token(t: &String) -> (r: bool)
    ensures
        r == is_number_flag(t@),
{
    proof {
        reveal_strlit("-n");
        reveal_strlit("--number");
        assert("-n"@ =~= seq!['-', 'n']);
        assert("--number"@ =~= seq!['-', '-', 'n', 'u', 'm', 'b', 'e', 'r']);
    }
    str_eq(t.as_str(), "-n") || str_eq(t.as_str(), "--number")
}

/// Decides `is_nonblank_flag` for one token.
fn nonblank_flag_token(t: &String) -> (r: bool)
    ensures
        r == is_nonblank_flag(t@),
{
    proof {
        reveal_strlit("-b");
        reveal_strlit("--number-nonblank");
        assert("-b"@ =~= seq!['-', 'b']);
        assert("--number-nonblank"@ =~= seq!['-', '-', 'n', 'u', 'm', 'b', 'e', 'r', '-', 'n', 'o', 'n', 'b', 'l', 'a', 'n', 'k']);
    }
    str_eq(t.as_str(), "-b") || str_eq(t.as_str(), "--number-nonblank")
}

/// Decides whether a token begins with `-` yet is not the sentinel `-`,
/// assuming the recognized flags were already ruled out.
fn flag_like_token(t: &String) -> (r: bool)
    ensures
        r == (t@.len() >= 1 && t@[0] == '-' && t@ != dash()),
{
    proof {
        reveal_strlit("-");
        assert("-"@ =~= seq!['-']);
    }
    let s: &str = t.as_str();
    s.unicode_len() >= 1 && s.get_char(0) == '-' && !str_eq(s, "-")
}

/// Resolves the argument tokens (the program's name excluded) into a
/// configuration, exactly as `spec_parse` describes; a resolved
/// configuration is well formed.
pub fn parse_args(args: &Vec<String>) -> (r: Result<Config, ConfigError>)
    ensures
        match r {
            Ok(c) => {
                &&& c.wf()
                &&& spec_parse(args.deep_view()) == (ParseResult::Parsed {
                    files: c.files.deep_view(),
                    number_lines: c.number_lines,
                    number_nonblank_lines: c.number_nonblank_lines,
                })
            },
            Err(ConfigError::UnknownFlag(t)) => spec_parse(args.deep_view())
                == (ParseResult::UnknownFlag { token: t@ }),
            Err(ConfigError::ConflictingNumberFlags) => spec_parse(args.deep_view())
                == ParseResult::FlagConflict,
        },
{
    let ghost adv = args.deep_view();
    let mut files: Vec<String> = Vec::new();
    let mut number_lines = false;
    let mut number_nonblank_lines = false;
    let mut i: usize = 0;
    proof {
        assert(adv.skip(0) =~= adv);
        assert(files.deep_view() =~= Seq::<Seq<char>>::empty());
    }
    while i < args.len()
        invariant
            adv == args.deep_view(),
            i <= adv.len(),
            !(number_lines && number_nonblank_lines),
            parse_from(adv.skip(i as int), files.deep_view(), number_lines, number_nonblank_lines)
                == spec_parse(adv),
        decreases adv.len() - i,
    {
        let t = &args[i];
        proof {
            assert(adv.skip(i as int).first() == t@);
            assert(adv.skip(i as int).drop_first() =~= adv.skip(i as int + 1));
        }
        if number_flag_token(t) {
            if number_nonblank_lines {
                return Err(ConfigError::ConflictingNumberFlags);
            }
            number_lines = true;
        } else if nonblank_flag_token(t) {
            if number_lines {
                return Err(ConfigError::ConflictingNumberFlags);
            }
            number_nonblank_lines = true;
        } else if flag_like_token(t) {
            return Err(ConfigError::UnknownFlag(t.clone()));
        } else {
            let ghost before = files.deep_view();
            files.push(t.clone());
            proof {
                assert(files.deep_view() =~= before.push(t@));
            }
        }
        i = i + 1;
    }
    proof {
        assert(adv.skip(i as int) =~= Seq::<Seq<char>>::empty());
    }
    if files.len() == 0 {
        let ghost before = files.deep_view();
        files.push(String::from_str("-"));
        proof {
            reveal_strlit("-");
            assert("-"@ =~= dash());
            assert(files.deep_view() =~= seq![dash()]);
        }
    }
    Ok(Config { files, number_lines, number_nonblank_lines })
}

} // verus!
