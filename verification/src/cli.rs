//! Command-line options of the program around the poller, parsed from the
//! argument strings handed in by the surrounding program, and the rule
//! that picks the effective log level.

use vstd::prelude::*;

verus! {

/// The parsed command line: global flags, then the subcommand with its
/// remaining arguments.
#[derive(Clone, PartialEq, Eq, Debug)]
pub struct Cli {
    /// Path of the config file, when one was given.
    pub config: Option<String>,
    /// Turn on debug logging.
    pub debug: bool,
    /// Turn on trace logging.
    pub trace: bool,
    /// The subcommand to run.
    pub cmd: Command,
}

/// The subcommand named on the command line, with the arguments that
/// follow it, handed through to the subsystem untouched.
#[derive(Clone, PartialEq, Eq, Debug)]
pub enum Command {
    /// Run the full node.
    Node(Vec<String>),
    /// Run the wallet.
    Wallet(Vec<String>),
}

/// The mathematical value of a [`Cli`].
pub struct CliModel {
    pub config: Option<Seq<char>>,
    pub debug: bool,
    pub trace: bool,
    pub cmd: CommandModel,
}

/// The mathematical value of a [`Command`].
pub enum CommandModel {
    Node(Seq<Seq<char>>),
    Wallet(Seq<Seq<char>>),
}

/// The value of an optional argument string.
pub open spec fn opt_string_view(c: Option<String>) -> Option<Seq<char>> {
    match c {
        Some(s) => Some(s@),
        None => None,
    }
}

impl View for Command {
    type V = CommandModel;

    open spec fn view(&self) -> CommandModel {
        match self {
            Command::Node(rest) => CommandModel::Node(rest.deep_view()),
            Command::Wallet(rest) => CommandModel::Wallet(rest.deep_view()),
        }
    }
}

impl View for Cli {
    type V = CliModel;

    open spec fn view(&self) -> CliModel {
        CliModel {
            config: opt_string_view(self.config),
            debug: self.debug,
            trace: self.trace,
            cmd: self.cmd@,
        }
    }
}

/// The command-line grammar, read left to right with the flags gathered so
/// far: a subcommand name ends the flags and takes the remaining arguments;
/// `--debug` and `--trace` set their flag; `-c`/`--config` consumes the
/// following argument as the config path; anything else — an unknown flag,
/// a config flag without a value, or no subcommand at all — is rejected.
pub open spec fn spec_from_args_at(
    args: Seq<Seq<char>>,
    config: Option<Seq<char>>,
    debug: bool,
    trace: bool,
) -> Option<CliModel>
    decreases args.len(),
{
    if args.len() == 0 {
        None
    } else if args[0] == "node"@ {
        Some(CliModel { config, debug, trace, cmd: CommandModel::Node(args.drop_first()) })
    } else if args[0] == "wallet"@ {
        Some(CliModel { config, debug, trace, cmd: CommandModel::Wallet(args.drop_first()) })
    } else if args[0] == "--debug"@ {
        spec_from_args_at(args.drop_first(), config, true, trace)
    } else if args[0] == "--trace"@ {
        spec_from_args_at(args.drop_first(), config, debug, true)
    } else if (args[0] == "-c"@ || args[0] == "--config"@) && args.len() >= 2 {
        spec_from_args_at(args.skip(2), Some(args[1]), debug, trace)
    } else {
        None
    }
}

/// What parsing a whole argument list means: the grammar applied with no
/// flag set yet.
pub open spec fn spec_from_args(args: Seq<Seq<char>>) -> Option<CliModel> {
    spec_from_args_at(args, None, false, false)
}

/// The arguments from index `from` on, in order.
fn tail_of(args: &Vec<String>, from: usize) -> (r: Vec<String>)
    requires
        from <= args@.len(),
    ensures
        r.deep_view() == args.deep_view().skip(from as int),
{
    let mut r: Vec<String> = Vec::new();
    proof {
        assert(r.deep_view() =~= args.deep_view().subrange(from as int, from as int));
    }
    let mut j: usize = from;
    while j < args.len()
        invariant
            from <= j <= args@.len(),
            r.deep_view() == args.deep_view().subrange(from as int, j as int),
        decreases args@.len() - j,
    {
        let ghost prev = r@;
        let ghost prev_dv = r.deep_view();
        let ghost j0 = j as int;
        r.push(args[j].clone());
        j = j + 1;
        proof {
            assert(r@ =~= prev.push(args@[j0]));
            assert(prev_dv.len() == prev.len());
            assert(prev.len() == j0 - from);
            assert(r.deep_view().len() == r@.len());
            assert forall|t: int| 0 <= t < r@.len() implies #[trigger] r.deep_view()[t]
                == args.deep_view()[from + t] by {
                assert(r.deep_view()[t] == r@[t].deep_view());
                if t < prev.len() {
                    assert(r@[t] == prev[t]);
                    assert(prev_dv[t] == prev[t].deep_view());
                    assert(prev_dv[t] == args.deep_view().subrange(from as int, j0)[t]);
                } else {
                    assert(r@[t] == args@[j0]);
                    assert(args.deep_view()[j0] == args@[j0].deep_view());
                }
            }
            assert(r.deep_view() =~= args.deep_view().subrange(from as int, j as int));
        }
    }
    proof {
        assert(args.deep_view().subrange(from as int, args.deep_view().len() as int)
            =~= args.deep_view().skip(from as int));
    }
    r
}

/// Parse the arguments from index `i` on, carrying the flags read so far.
fn parse_from(args: &Vec<String>, i: usize, config: Option<String>, debug: bool, trace: bool) -> (r:
    Option<Cli>)
    requires
        i <= args@.len(),
    ensures
        match r {
            Some(c) => spec_from_args_at(
                args.deep_view().skip(i as int),
                opt_string_view(config),
                debug,
                trace,
            ) == Some(c@),
            None => spec_from_args_at(
                args.deep_view().skip(i as int),
                opt_string_view(config),
                debug,
                trace,
            ) is None,
        },
    decreases args@.len() - i,
{
    let ghost dv = args.deep_view().skip(i as int);
    if i == args.len() {
        return None;
    }
    let a = &args[i];
    proof {
        assert(dv[0] == args@[i as int]@);
        assert(dv.drop_first() =~= args.deep_view().skip(i as int + 1));
    }
    if *a == "node".to_owned() {
        let rest = tail_of(args, i + 1);
        Some(Cli { config, debug, trace, cmd: Command::Node(rest) })
    } else if *a == "wallet".to_owned() {
        let rest = tail_of(args, i + 1);
        Some(Cli { config, debug, trace, cmd: Command::Wallet(rest) })
    } else if *a == "--debug".to_owned() {
        parse_from(args, i + 1, config, true, trace)
    } else if *a == "--trace".to_owned() {
        parse_from(args, i + 1, config, debug, true)
    } else if *a == "-c".to_owned() || *a == "--config".to_owned() {
        if args.len() - i >= 2 {
            proof {
                assert(dv[1] == args@[i as int + 1]@);
                assert(dv.skip(2) =~= args.deep_view().skip(i as int + 2));
            }
            let value = args[i + 1].clone();
            parse_from(args, i + 2, Some(value), debug, trace)
        } else {
            None
        }
    } else {
        None
    }
}

/// Parse a full argument list (without the program name) into the
/// command-line options, by the grammar of [`spec_from_args`]. `None` when
/// the arguments do not fit the grammar.
pub fn from_args(args: &Vec<String>) -> (r: Option<Cli>)
    ensures
        match r {
            Some(c) => spec_from_args(args.deep_view()) == Some(c@),
            None => spec_from_args(args.deep_view()) is None,
        },
{
    proof {
        assert(args.deep_view().skip(0) =~= args.deep_view());
    }
    parse_from(args, 0, None, false, false)
}

/// A log verbosity level, most silent first.
#[derive(Clone, Copy, PartialEq, Eq, Structural, Debug)]
pub enum LogLevel {
    Off,
    Error,
    Warn,
    Info,
    Debug,
    Trace,
}

/// Where the effective log level came from.
#[derive(Clone, Copy, PartialEq, Eq, Structural, Debug)]
pub enum LogOptionsSource {
    Config,
    Env,
    Flag,
}

/// The effective log level and its origin.
#[derive(Clone, Copy, PartialEq, Eq, Structural, Debug)]
pub struct LogOptions {
    pub level: LogLevel,
    pub source: LogOptionsSource,
}

/// Pick the effective log options: the `--trace` flag wins, then the
/// `--debug` flag, then a level taken from the environment (when the
/// environment named this program), and last the level from the config
/// file.
pub fn log_options(config_level: LogLevel, env_level: Option<LogLevel>, debug: bool, trace: bool)
    -> (r: LogOptions)
    ensures
        trace ==> r == (LogOptions { level: LogLevel::Trace, source: LogOptionsSource::Flag }),
        !trace && debug ==> r == (LogOptions {
            level: LogLevel::Debug,
            source: LogOptionsSource::Flag,
        }),
        !trace && !debug ==> match env_level {
            Some(lv) => r == (LogOptions { level: lv, source: LogOptionsSource::Env }),
            None => r == (LogOptions { level: config_level, source: LogOptionsSource::Config }),
        },
{
    if trace {
        LogOptions { level: LogLevel::Trace, source: LogOptionsSource::Flag }
    } else if debug {
        LogOptions { level: LogLevel::Debug, source: LogOptionsSource::Flag }
    } else {
        match env_level {
            Some(lv) => LogOptions { level: lv, source: LogOptionsSource::Env },
            None => LogOptions { level: config_level, source: LogOptionsSource::Config },
        }
    }
}

} // verus!
