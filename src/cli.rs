//! Command lines of the tools: the watcher's subcommands and the bulk
//! sender's options.
use vstd::prelude::*;
use vstd::string::*;

verus! {

/// Settings file read or written when the command line names none.
pub open spec fn default_config_path() -> Seq<char> {
    "config.yaml"@
}

/// The watcher's subcommands.
pub enum Commands {
    /// Watch for new blocks and send a transfer on each, with the settings at `config`.
    Start { config: String },
    /// Write a sample settings file to `output`.
    GenerateConfig { output: String },
}

/// The watcher's command line.
pub struct Cli {
    pub command: Commands,
}

/// Options of the bulk sender.
pub struct Args {
    /// Path of the plan file.
    pub config: String,
    /// Most transfers in flight at once.
    pub concurrent: usize,
    /// Seconds to wait for each confirmation.
    pub timeout: u64,
}

/// Why a command line was refused.
#[derive(Debug, Clone, Copy, PartialEq, Eq, Structural)]
pub enum CliError {
    /// No subcommand was given.
    MissingCommand,
    /// The first word is no subcommand.
    UnknownCommand,
    /// A word is no option of the subcommand.
    UnknownArgument,
    /// An option is last, without its value.
    MissingValue,
    /// An option is given twice.
    DuplicateArgument,
}

pub open spec fn has_prefix(s: Seq<char>, p: Seq<char>) -> bool {
    p.len() <= s.len() && s.take(p.len() as int) == p
}

/// Reads the one option `short`/`long` from `toks[i..]`: given as `short V`,
/// `long V` or `long=V`, at most once, and nothing else.
pub open spec fn scan_option(toks: Seq<Seq<char>>, i: int, short: Seq<char>, long: Seq<char>) -> Result<
    Option<Seq<char>>,
    CliError,
>
    decreases toks.len() - i,
{
    if i < 0 || i >= toks.len() {
        Ok(None)
    } else {
        let t = toks[i];
        let eq_form = long + "="@;
        if t == short || t == long {
            if i + 1 >= toks.len() {
                Err(CliError::MissingValue)
            } else {
                match scan_option(toks, i + 2, short, long) {
                    Err(e) => Err(e),
                    Ok(Some(_)) => Err(CliError::DuplicateArgument),
                    Ok(None) => Ok(Some(toks[i + 1])),
                }
            }
        } else if has_prefix(t, eq_form) {
            match scan_option(toks, i + 1, short, long) {
                Err(e) => Err(e),
                Ok(Some(_)) => Err(CliError::DuplicateArgument),
                Ok(None) => Ok(Some(t.skip(eq_form.len() as int))),
            }
        } else {
            Err(CliError::UnknownArgument)
        }
    }
}

/// The watcher's command line, words after the program name: `start` with
/// `-c`/`--config`, or `generate-config` with `-o`/`--output`; either path
/// defaults to `config.yaml`.
pub open spec fn parse_args_spec(toks: Seq<Seq<char>>) -> Result<(bool, Seq<char>), CliError> {
    if toks.len() == 0 {
        Err(CliError::MissingCommand)
    } else {
        let start = toks[0] == "start"@;
        if !start && toks[0] != "generate-config"@ {
            Err(CliError::UnknownCommand)
        } else {
            let found = if start {
                scan_option(toks, 1, "-c"@, "--config"@)
            } else {
                scan_option(toks, 1, "-o"@, "--output"@)
            };
            match found {
                Err(e) => Err(e),
                Ok(Some(p)) => Ok((start, p)),
                Ok(None) => Ok((start, default_config_path())),
            }
        }
    }
}

pub open spec fn words(args: Seq<String>) -> Seq<Seq<char>> {
    args.map_values(|a: String| a@)
}

/// Whether `s` begins with `p`.
fn starts_with(s: &str, p: &str) -> (r: bool)
    ensures
        r == has_prefix(s@, p@),
{
    let n = s.unicode_len();
    let m = p.unicode_len();
    if m > n {
        return false;
    }
    let mut i: usize = 0;
    while i < m
        invariant
            i <= m <= n,
            n == s@.len(),
            m == p@.len(),
            forall|k: int| 0 <= k < i ==> s@[k] == p@[k],
        decreases m - i,
    {
        if s.get_char(i) != p.get_char(i) {
            assert(s@.take(m as int)[i as int] != p@[i as int]);
            return false;
        }
        i = i + 1;
    }
    assert(s@.take(m as int) =~= p@);
    true
}

fn same_text(s: &str, p: &str) -> (r: bool)
    ensures
        r == (s@ == p@),
{
    if s.unicode_len() != p.unicode_len() {
        return false;
    }
    let r = starts_with(s, p);
    assert(s@ =~= s@.take(p@.len() as int));
    r
}

fn scan_option_exec(args: &Vec<String>, i: usize, short: &str, long: &str) -> (r: Result<
    Option<String>,
    CliError,
>)
    requires
        i <= args@.len(),
    ensures
        match scan_option(words(args@), i as int, short@, long@) {
            Ok(Some(v)) => r matches Ok(Some(x)) && x@ == v,
            Ok(None) => r matches Ok(None),
            Err(e) => r == Err::<Option<String>, CliError>(e),
        },
    decreases args@.len() - i,
{
    let ghost toks = words(args@);
    if i >= args.len() {
        return Ok(None);
    }
    let t = args[i].as_str();
    assert(toks[i as int] == t@);
    let eq_form = String::from_str(long).concat("=");
    if same_text(t, short) || same_text(t, long) {
        if i + 1 >= args.len() {
            return Err(CliError::MissingValue);
        }
        assert(toks[i + 1] == args@[i + 1]@);
        let rest = if i + 2 <= args.len() {
            scan_option_exec(args, i + 2, short, long)
        } else {
            Ok(None)
        };
        match rest {
            Err(e) => Err(e),
            Ok(Some(_)) => Err(CliError::DuplicateArgument),
            Ok(None) => Ok(Some(args[i + 1].clone())),
        }
    } else if starts_with(t, eq_form.as_str()) {
        let rest = scan_option_exec(args, i + 1, short, long);
        match rest {
            Err(e) => Err(e),
            Ok(Some(_)) => Err(CliError::DuplicateArgument),
            Ok(None) => {
                let n = t.unicode_len();
                let v = String::from_str(t.substring_char(eq_form.unicode_len(), n));
                assert(v@ =~= t@.skip(eq_form@.len() as int));
                Ok(Some(v))
            },
        }
    } else {
        Err(CliError::UnknownArgument)
    }
}

/// Reads the watcher's command line (the words after the program name).
pub fn parse_args(args: &Vec<String>) -> (r: Result<Cli, CliError>)
    ensures
        match parse_args_spec(words(args@)) {
            Ok((true, p)) => r matches Ok(c) && c.command matches Commands::Start { config }
                && config@ == p,
            Ok((false, p)) => r matches Ok(c) && c.command matches Commands::GenerateConfig {
                output,
            } && output@ == p,
            Err(e) => r matches Err(x) && x == e,
        },
{
    let ghost toks = words(args@);
    if args.len() == 0 {
        return Err(CliError::MissingCommand);
    }
    assert(toks[0] == args@[0]@);
    let start = same_text(args[0].as_str(), "start");
    if !start && !same_text(args[0].as_str(), "generate-config") {
        return Err(CliError::UnknownCommand);
    }
    let found = if start {
        scan_option_exec(args, 1, "-c", "--config")
    } else {
        scan_option_exec(args, 1, "-o", "--output")
    };
    let path = match found {
        Err(e) => {
            return Err(e);
        },
        Ok(Some(p)) => p,
        Ok(None) => String::from_str("config.yaml"),
    };
    if start {
        Ok(Cli { command: Commands::Start { config: path } })
    } else {
        Ok(Cli { command: Commands::GenerateConfig { output: path } })
    }
}

} // verus!
