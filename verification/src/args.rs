//! The command line: where the configuration file is.

use vstd::prelude::*;

verus! {

/// What clap gives for an option of a command line: `args` parsed by a
/// command named `command` with version `version` and one option
/// `--long`/`-short` taking a value that defaults to `default`; `None` where
/// clap does not hand back a value (a refused command line, or a request for
/// help or for the version).
pub uninterp spec fn clap_option_value(
    args: Seq<Seq<char>>,
    command: Seq<char>,
    version: Seq<char>,
    long: Seq<char>,
    short: char,
    default: Seq<char>,
) -> Option<Seq<char>>;

/// Whether `c` is an ASCII small letter.
pub open spec fn is_small_letter(c: char) -> bool {
    'a' <= c && c <= 'z'
}

/// Whether a value can follow an option as its own argument: it is not empty
/// and does not begin with `-`.
pub open spec fn plain_value(v: Seq<char>) -> bool {
    v.len() > 0 && v[0] != '-'
}

/// Whether the command line is the program name, then `--long` or `-short`,
/// then a plain value.
pub open spec fn gives_option(args: Seq<Seq<char>>, long: Seq<char>, short: char) -> bool {
    &&& args.len() == 3
    &&& (args[1] == seq!['-', '-'] + long || args[1] == seq!['-', short])
    &&& plain_value(args[2])
}

/// A command line that gives no configuration file: clap's rendered message,
/// the exit code clap asks for, and whether the message belongs on standard
/// error (a refused command line) rather than standard output (help and
/// version text).
#[derive(Debug)]
pub struct ArgsError {
    pub message: String,
    pub exit_code: i32,
    pub to_stderr: bool,
}

/// Parses `args` with a clap command named `command`, with version `version`
/// and one option `--long`/`-short` whose value, shown as `value_name` in the
/// help, defaults to `default` (`Command::try_get_matches_from`, then
/// `ArgMatches::get_one`); clap's error is handed back as its rendered text,
/// exit code and stream (`Error::render`, `exit_code`, `use_stderr`). The
/// names are held to plain letters, which clap's definition checks accept
/// (a `-` as the short name, or a long name that starts with `-`, would
/// panic there, and `help` and `version` are clap's own). What clap makes of
/// a command line is named `clap_option_value`; stated of it is what clap
/// documents: with no option the value is the default (`Arg::default_value`),
/// and `--long V` or `-short V` gives `V` (`Arg::long`, `Arg::short`). A value
/// is always there once parsing succeeds, as the option has a default.
/// Nothing is stated of the error's text.
#[verifier::external_body]
fn parse_option(
    args: &Vec<String>,
    command: &'static str,
    version: &'static str,
    long: &'static str,
    short: char,
    value_name: &'static str,
    default: &'static str,
) -> (r: Result<Option<String>, ArgsError>)
    requires
        command@.len() > 0,
        version@.len() > 0,
        long@.len() > 0,
        forall|i: int| 0 <= i < long@.len() ==> is_small_letter(#[trigger] long@[i]),
        long@ != "help"@,
        long@ != "version"@,
        is_small_letter(short),
        short != 'h',
        value_name@.len() > 0,
        forall|i: int| 0 <= i < value_name@.len() ==> 'A' <= #[trigger] value_name@[i] <= 'Z',
        default@.len() > 0,
    ensures
        r matches Ok(v) ==> v is Some && clap_option_value(
            args.deep_view(),
            command@,
            version@,
            long@,
            short,
            default@,
        ) == Some(v->0@),
        r is Err ==> clap_option_value(
            args.deep_view(),
            command@,
            version@,
            long@,
            short,
            default@,
        ) is None,
        args@.len() == 1 ==> r is Ok && r->Ok_0 is Some && r->Ok_0->0@ == default@,
        gives_option(args.deep_view(), long@, short) ==> r is Ok && r->Ok_0 is Some
            && r->Ok_0->0@ == args@[2]@,
{
    let option = clap::Arg::new(long).short(short).long(long).value_name(value_name);
    let parsed = clap::Command::new(command).version(version).arg(option.default_value(default))
        .try_get_matches_from(args.iter());
    match parsed {
        Ok(m) => Ok(m.get_one::<String>(long).cloned()),
        Err(e) => Err(
            ArgsError { message: e.render().to_string(), exit_code: e.exit_code(), to_stderr: e.use_stderr() },
        ),
    }
}

/// The command line arguments.
#[derive(Debug)]
pub struct Args {
    /// The configuration file, `config.toml` in the current directory unless
    /// `--config` (or `-c`) names another.
    pub config: String,
}

impl Args {
    /// Reads the command line `args` (the program name first) of the program
    /// `coursegen2`, version 0.1.0: a `--config PATH` (or `-c PATH`) option
    /// whose default is `config.toml`, and `--help` and `--version`.
    pub fn try_parse_from(args: Vec<String>) -> (r: Result<Args, ArgsError>)
        ensures
            match r {
                Ok(a) => clap_option_value(
                    args.deep_view(),
                    "coursegen2"@,
                    "0.1.0"@,
                    "config"@,
                    'c',
                    "config.toml"@,
                ) == Some(a.config@),
                Err(_) => clap_option_value(
                    args.deep_view(),
                    "coursegen2"@,
                    "0.1.0"@,
                    "config"@,
                    'c',
                    "config.toml"@,
                ) is None,
            },
            args@.len() == 1 ==> (r matches Ok(a) && a.config@ == "config.toml"@),
            gives_option(args.deep_view(), "config"@, 'c') ==> (r matches Ok(a) && a.config@
                == args@[2]@),
    {
        proof {
            reveal_strlit("coursegen2");
            reveal_strlit("0.1.0");
            reveal_strlit("config");
            reveal_strlit("CONFIG");
            reveal_strlit("config.toml");
            reveal_strlit("help");
            reveal_strlit("version");
            assert("config"@[0] != "help"@[0]);
            assert("config"@.len() != "version"@.len());
        }
        match parse_option(&args, "coursegen2", "0.1.0", "config", 'c', "CONFIG", "config.toml") {
            Ok(Some(config)) => Ok(Args { config }),
            Ok(None) => {
                proof {
                    assert(false);
                }
                Ok(Args { config: String::new() })
            },
            Err(e) => Err(e),
        }
    }
}

} // verus!
