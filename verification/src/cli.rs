//! The command line of the wire-up binary: `--nproc P COMMAND [ARGS...]`.
//!
//! `--nproc` takes its value attached (`--nproc=2`) or as the next
//! token; the first non-flag token is the command; everything after the
//! command belongs to its arguments, hyphens and all, with one leading
//! `--` separator dropped.
use vstd::prelude::*;
use vstd::string::{StrSliceExecFns, StringExecFns};

use crate::strings::{parse_u16, spec_parse_u32, str_eq};

verus! {

/// The parsed command line.
#[derive(Debug)]
pub struct Cli {
    pub nproc: u16,
    pub command: String,
    pub args: Vec<String>,
}

/// The mathematical value of a parsed command line.
pub struct CliV {
    pub nproc: u16,
    pub command: Seq<char>,
    pub args: Seq<Seq<char>>,
}

#[derive(Debug, PartialEq, Eq, Structural)]
pub enum CliError {
    /// `--nproc` was not given, or was given without a value.
    MissingNproc,
    /// No command token was given.
    MissingCommand,
    /// The value of `--nproc` is not a number that fits.
    InvalidNproc,
    /// A flag other than `--nproc` stood before the command.
    UnknownArgument,
    /// `--nproc` was given twice.
    DuplicateNproc,
}

/// The value of `--nproc`'s argument, or the error it causes.
pub open spec fn spec_nproc_value(v: Seq<char>) -> Result<u16, CliError> {
    match spec_parse_u32(v) {
        Some(n) => if n <= u16::MAX {
            Ok(n as u16)
        } else {
            Err(CliError::InvalidNproc)
        },
        None => Err(CliError::InvalidNproc),
    }
}

/// The command and trailing arguments, given the tokens from the command
/// position on: the first token is the command; a single `--` right
/// after it is dropped; the rest are the arguments.
pub open spec fn spec_parse_tail(tokens: Seq<Seq<char>>, nproc: u16) -> Result<CliV, CliError> {
    if tokens.len() == 0 {
        Err(CliError::MissingCommand)
    } else {
        let command = tokens.first();
        let rest = tokens.drop_first();
        let args = if rest.len() > 0 && rest.first() == "--"@ {
            rest.drop_first()
        } else {
            rest
        };
        Ok(CliV { nproc, command, args })
    }
}

/// Parse the flag region: `--nproc` in either form, then the tail.
pub open spec fn spec_parse_flags(tokens: Seq<Seq<char>>, nproc: Option<u16>) -> Result<
    CliV,
    CliError,
>
    decreases tokens.len(),
{
    if tokens.len() == 0 {
        match nproc {
            Some(_) => Err(CliError::MissingCommand),
            None => Err(CliError::MissingNproc),
        }
    } else {
        let t = tokens.first();
        if "--nproc="@.is_prefix_of(t) {
            if nproc is Some {
                Err(CliError::DuplicateNproc)
            } else {
                match spec_nproc_value(t.skip(8)) {
                    Ok(n) => spec_parse_flags(tokens.drop_first(), Some(n)),
                    Err(e) => Err(e),
                }
            }
        } else if t == "--nproc"@ {
            if nproc is Some {
                Err(CliError::DuplicateNproc)
            } else if tokens.len() == 1 {
                Err(CliError::MissingNproc)
            } else {
                match spec_nproc_value(tokens[1]) {
                    Ok(n) => spec_parse_flags(tokens.skip(2), Some(n)),
                    Err(e) => Err(e),
                }
            }
        } else if t.len() > 0 && t.first() == '-' && !(t == "--"@) {
            Err(CliError::UnknownArgument)
        } else {
            let tail = if t == "--"@ {
                tokens.drop_first()
            } else {
                tokens
            };
            match nproc {
                Some(n) => spec_parse_tail(tail, n),
                None => Err(CliError::MissingNproc),
            }
        }
    }
}

/// What `Cli::try_parse_from` yields: the first token is the program
/// name and is skipped.
pub open spec fn spec_parse_cli(args: Seq<Seq<char>>) -> Result<CliV, CliError> {
    if args.len() == 0 {
        Err(CliError::MissingNproc)
    } else {
        spec_parse_flags(args.drop_first(), None)
    }
}

/// `r` is exactly what the spec-level parse yields.
pub open spec fn parse_matches(r: Result<Cli, CliError>, s: Result<CliV, CliError>) -> bool {
    match r {
        Ok(cli) => s matches Ok(v) && cli.nproc == v.nproc && cli.command@ == v.command
            && cli.args.deep_view() == v.args,
        Err(e) => s == Err::<CliV, CliError>(e),
    }
}

fn str_has_prefix(s: &str, p: &str) -> (r: bool)
    ensures
        r == p@.is_prefix_of(s@),
{
    let pn = p.unicode_len();
    let sn = s.unicode_len();
    if pn > sn {
        assert(!p@.is_prefix_of(s@));
        return false;
    }
    let mut i: usize = 0;
    while i < pn
        invariant
            pn == p@.len(),
            sn == s@.len(),
            pn <= sn,
            i <= pn,
            forall|j: int| 0 <= j < i ==> p@[j] == s@[j],
        decreases pn - i,
    {
        if s.get_char(i) != p.get_char(i) {
            assert(!p@.is_prefix_of(s@));
            return false;
        }
        i = i + 1;
    }
    assert(p@ =~= s@.subrange(0, pn as int));
    true
}

impl Cli {
    /// Parse a command line; the first token is the program name.
    pub fn try_parse_from(args: &Vec<String>) -> (r: Result<Cli, CliError>)
        ensures
            parse_matches(r, spec_parse_cli(args.deep_view())),
    {
        let dv = Ghost(args.deep_view());
        if args.len() == 0 {
            return Err(CliError::MissingNproc);
        }
        proof {
            assert(dv@.drop_first() =~= dv@.skip(1));
        }
        Self::parse_flags(args, 1, None)
    }

    fn parse_flags(args: &Vec<String>, at: usize, nproc: Option<u16>) -> (r: Result<Cli, CliError>)
        requires
            1 <= at <= args@.len(),
        ensures
            parse_matches(r, spec_parse_flags(args.deep_view().skip(at as int), nproc)),
        decreases args@.len() - at,
    {
        let ghost toks = args.deep_view().skip(at as int);
        let n = args.len();
        if at == n {
            proof {
                assert(toks.len() == 0);
            }
            return (match nproc {
                Some(_) => Err(CliError::MissingCommand),
                None => Err(CliError::MissingNproc),
            });
        }
        proof {
            assert(toks.first() == args.deep_view()[at as int]);
            assert(args.deep_view()[at as int] == args@[at as int]@);
            assert(toks.drop_first() =~= args.deep_view().skip(at + 1));
        }
        let t = &args[at];
        proof {
            reveal_strlit("--nproc=");
            reveal_strlit("--nproc");
            reveal_strlit("--");
        }
        if str_has_prefix(t.as_str(), "--nproc=") {
            if nproc.is_some() {
                return Err(CliError::DuplicateNproc);
            }
            let tn = t.as_str().unicode_len();
            let v = t.as_str().substring_char(8, tn);
            proof {
                assert(v@ =~= toks.first().skip(8));
            }
            match parse_u16(v) {
                Some(p) => Self::parse_flags(args, at + 1, Some(p)),
                None => Err(CliError::InvalidNproc),
            }
        } else if str_eq(t.as_str(), "--nproc") {
            if nproc.is_some() {
                return Err(CliError::DuplicateNproc);
            }
            if at + 1 == n {
                proof {
                    assert(toks.len() == 1);
                }
                return Err(CliError::MissingNproc);
            }
            proof {
                assert(toks[1] == args.deep_view()[at + 1]);
                assert(toks.skip(2) =~= args.deep_view().skip(at + 2));
            }
            match parse_u16(args[at + 1].as_str()) {
                Some(p) => Self::parse_flags(args, at + 2, Some(p)),
                None => Err(CliError::InvalidNproc),
            }
        } else {
            let tn = t.as_str().unicode_len();
            let dashdash = str_eq(t.as_str(), "--");
            if tn > 0 && t.as_str().get_char(0) == '-' && !dashdash {
                return Err(CliError::UnknownArgument);
            }
            let nproc_val = match nproc {
                Some(p) => p,
                None => {
                    return Err(CliError::MissingNproc);
                },
            };
            if dashdash {
                proof {
                    assert(toks.drop_first() =~= args.deep_view().skip(at + 1));
                }
                Self::parse_tail(args, at + 1, nproc_val)
            } else {
                Self::parse_tail(args, at, nproc_val)
            }
        }
    }

    fn parse_tail(args: &Vec<String>, at: usize, nproc: u16) -> (r: Result<Cli, CliError>)
        requires
            at <= args@.len(),
        ensures
            parse_matches(r, spec_parse_tail(args.deep_view().skip(at as int), nproc)),
    {
        let ghost toks = args.deep_view().skip(at as int);
        let n = args.len();
        if at == n {
            proof {
                assert(toks.len() == 0);
            }
            return Err(CliError::MissingCommand);
        }
        proof {
            assert(toks.first() == args.deep_view()[at as int]);
            assert(toks.drop_first() =~= args.deep_view().skip(at + 1));
            reveal_strlit("--");
        }
        let command = args[at].clone();
        let mut rest_at = at + 1;
        proof {
            if toks.drop_first().len() > 0 {
                assert(toks.drop_first().first() == args.deep_view()[at + 1]);
            }
        }
        if rest_at < n && str_eq(args[rest_at].as_str(), "--") {
            rest_at = rest_at + 1;
        }
        let mut cli_args: Vec<String> = Vec::new();
        let ghost tail = args.deep_view().skip(rest_at as int);
        let mut i: usize = rest_at;
        while i < n
            invariant
                n == args@.len(),
                rest_at <= i <= n,
                tail == args.deep_view().skip(rest_at as int),
                cli_args.deep_view() == tail.take(i - rest_at),
            decreases n - i,
        {
            let ghost before = cli_args.deep_view();
            let a = args[i].clone();
            let ghost av = a@;
            cli_args.push(a);
            proof {
                assert(cli_args.deep_view() =~~= before.push(av));
                assert(tail[i - rest_at] == args.deep_view()[i as int]);
                assert(tail.take(i + 1 - rest_at) =~= tail.take(i - rest_at).push(
                    tail[i - rest_at],
                ));
            }
            i = i + 1;
        }
        proof {
            assert(cli_args.deep_view() =~= tail.take(n - rest_at));
            assert(tail.take(n - rest_at) =~= tail);
            assert(toks.drop_first() =~= args.deep_view().skip(at + 1));
            if rest_at == at + 2 {
                assert(toks.drop_first().drop_first() =~= args.deep_view().skip(at + 2));
            }
        }
        Ok(Cli { nproc, command, args: cli_args })
    }
}

} // verus!
