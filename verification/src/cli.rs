//! The command line of the bookshelf builder: the arguments of `build` and
//! `serve` after the subcommand.
use vstd::prelude::*;
use crate::serve::ServeOptions;
use crate::text::{chars_of, copy_string, str_eq, string_from};

verus! {

/// The subcommand whose arguments are read.
#[derive(Debug, Clone, Copy, PartialEq, Eq, Structural)]
pub enum Command {
    Build,
    Serve,
}

/// Why the arguments of a subcommand are refused.
#[derive(Debug, Clone, PartialEq, Eq)]
pub enum CliError {
    /// A flag that takes a value is the last argument.
    MissingValue { flag: String },
    /// `--dest-dir` is given twice.
    RepeatedDestDir,
    /// An argument starting with `-` is no known flag.
    UnknownFlag { command: Command, flag: String },
    /// A second configuration path is given.
    ExtraConfigPath { command: Command },
    /// No configuration path is given.
    MissingConfigPath,
    /// The value of `--port` is no port number.
    InvalidPort { value: String },
}

/// A command-line error as plain values.
pub enum CliErrorView {
    MissingValue { flag: Seq<char> },
    RepeatedDestDir,
    UnknownFlag { command: Command, flag: Seq<char> },
    ExtraConfigPath { command: Command },
    MissingConfigPath,
    InvalidPort { value: Seq<char> },
}

impl View for CliError {
    type V = CliErrorView;

    open spec fn view(&self) -> CliErrorView {
        match self {
            CliError::MissingValue { flag } => CliErrorView::MissingValue { flag: flag@ },
            CliError::RepeatedDestDir => CliErrorView::RepeatedDestDir,
            CliError::UnknownFlag { command, flag } => CliErrorView::UnknownFlag { command: *command, flag: flag@ },
            CliError::ExtraConfigPath { command } => CliErrorView::ExtraConfigPath { command: *command },
            CliError::MissingConfigPath => CliErrorView::MissingConfigPath,
            CliError::InvalidPort { value } => CliErrorView::InvalidPort { value: value@ },
        }
    }
}

/// The name of a subcommand.
pub open spec fn command_name(c: Command) -> Seq<char> {
    match c {
        Command::Build => "build"@,
        Command::Serve => "serve"@,
    }
}

/// The text that describes a command-line error.
pub open spec fn cli_error_text(e: CliErrorView) -> Seq<char> {
    match e {
        CliErrorView::MissingValue { flag } => "missing value for "@ + flag,
        CliErrorView::RepeatedDestDir => "--dest-dir may only be provided once"@,
        CliErrorView::UnknownFlag { command, flag } => "unknown "@ + command_name(command) + " flag '"@ + flag + "'"@,
        CliErrorView::ExtraConfigPath { command } => command_name(command)
            + " accepts exactly one <bookshelf.toml> path"@,
        CliErrorView::MissingConfigPath => "missing required <bookshelf.toml> path"@,
        CliErrorView::InvalidPort { value } => "invalid port '"@ + value + "'"@,
    }
}

fn command_name_string(c: Command) -> (r: String)
    ensures
        r@ == command_name(c),
{
    match c {
        Command::Build => string_from("build"),
        Command::Serve => string_from("serve"),
    }
}

impl CliError {
    /// The text that describes the error, for reports.
    pub fn message(&self) -> (r: String)
        ensures
            r@ == cli_error_text(self@),
    {
        match self {
            CliError::MissingValue { flag } => {
                let mut s = string_from("missing value for ");
                s.append(flag.as_str());
                s
            },
            CliError::RepeatedDestDir => string_from("--dest-dir may only be provided once"),
            CliError::UnknownFlag { command, flag } => {
                let mut s = string_from("unknown ");
                s.append(command_name_string(*command).as_str());
                s.append(" flag '");
                s.append(flag.as_str());
                s.append("'");
                s
            },
            CliError::ExtraConfigPath { command } => {
                let mut s = command_name_string(*command);
                s.append(" accepts exactly one <bookshelf.toml> path");
                s
            },
            CliError::MissingConfigPath => string_from("missing required <bookshelf.toml> path"),
            CliError::InvalidPort { value } => {
                let mut s = string_from("invalid port '");
                s.append(value.as_str());
                s.append("'");
                s
            },
        }
    }
}

/// Every character of `d` is an ASCII digit.
pub open spec fn all_digits(d: Seq<char>) -> bool {
    forall|i: int| 0 <= i < d.len() ==> '0' <= #[trigger] d[i] && d[i] <= '9'
}

/// The number that ASCII digits write in decimal.
pub open spec fn digits_value(d: Seq<char>) -> nat
    decreases d.len(),
{
    if d.len() == 0 {
        0
    } else {
        digits_value(d.drop_last()) * 10 + ((d.last() as nat) - ('0' as nat)) as nat
    }
}

/// `u16::from_str`: an optional `+` and at least one digit, whose value
/// fits in 16 bits.
pub open spec fn parsed_u16(s: Seq<char>) -> Option<u16> {
    let d = if s.len() > 0 && s[0] == '+' {
        s.skip(1)
    } else {
        s
    };
    if d.len() == 0 || !all_digits(d) || digits_value(d) > 65535 {
        None
    } else {
        Some(digits_value(d) as u16)
    }
}

proof fn lemma_digits_prefix(d: Seq<char>, j: int)
    requires
        all_digits(d),
        0 <= j <= d.len(),
    ensures
        digits_value(d.take(j)) <= digits_value(d),
    decreases d.len() - j,
{
    if j < d.len() {
        lemma_digits_prefix(d, j + 1);
        assert(d.take(j + 1).drop_last() =~= d.take(j));
    } else {
        assert(d.take(j) =~= d);
    }
}

/// Reads a port number as `u16::from_str` does.
pub fn parse_port(s: &str) -> (r: Option<u16>)
    ensures
        r == parsed_u16(s@),
{
    let cs = chars_of(s);
    let start: usize = if cs.len() > 0 && cs[0] == '+' {
        1
    } else {
        0
    };
    let ghost d = if s@.len() > 0 && s@[0] == '+' {
        s@.skip(1)
    } else {
        s@
    };
    assert(d =~= cs@.skip(start as int));
    if start >= cs.len() {
        return None;
    }
    let mut acc: u32 = 0;
    let mut i: usize = start;
    while i < cs.len()
        invariant
            start <= i <= cs.len(),
            cs@ == s@,
            d == cs@.skip(start as int),
            d == (if s@.len() > 0 && s@[0] == '+' {
                s@.skip(1)
            } else {
                s@
            }),
            acc as nat == digits_value(d.take(i - start)),
            acc <= 65535,
            all_digits(d.take(i - start)),
        decreases cs.len() - i,
    {
        let c = cs[i];
        if !('0' <= c && c <= '9') {
            assert(d[i - start] == c);
            return None;
        }
        let digit = (c as u32) - ('0' as u32);
        let next = acc * 10 + digit;
        assert(d.take(i - start + 1).drop_last() =~= d.take(i - start));
        assert(d.take(i - start + 1).last() == c);
        if next > 65535 {
            proof {
                if all_digits(d) {
                    lemma_digits_prefix(d, i - start + 1);
                }
            }
            return None;
        }
        acc = next;
        i += 1;
        assert forall|k: int| 0 <= k < d.take(i - start).len() implies '0' <= #[trigger] d.take(i - start)[k]
            && d.take(i - start)[k] <= '9' by {
            if k < i - 1 - start {
                assert(d.take(i - start)[k] == d.take(i - 1 - start)[k]);
            }
        }
    }
    assert(d.take(cs.len() - start) =~= d);
    Some(acc as u16)
}

/// What `build` reads: the configuration path and the output directory.
pub struct BuildArgsView {
    pub config_path: Option<Seq<char>>,
    pub dest_dir: Option<Seq<char>>,
}

/// The arguments of `build` from `i` on, read into `st`: `--dest-dir` (or
/// `-d`) with its value once, and exactly one path.
pub open spec fn build_scan(args: Seq<Seq<char>>, i: int, st: BuildArgsView) -> Result<BuildArgsView, CliErrorView>
    decreases args.len() - i,
{
    if i < 0 || i >= args.len() {
        Ok(st)
    } else {
        let a = args[i];
        if a == "--dest-dir"@ || a == "-d"@ {
            if i + 1 >= args.len() {
                Err(CliErrorView::MissingValue { flag: a })
            } else if st.dest_dir is Some {
                Err(CliErrorView::RepeatedDestDir)
            } else {
                build_scan(args, i + 2, BuildArgsView { config_path: st.config_path, dest_dir: Some(args[i + 1]) })
            }
        } else if a.len() > 0 && a[0] == '-' {
            Err(CliErrorView::UnknownFlag { command: Command::Build, flag: a })
        } else if st.config_path is Some {
            Err(CliErrorView::ExtraConfigPath { command: Command::Build })
        } else {
            build_scan(args, i + 1, BuildArgsView { config_path: Some(a), dest_dir: st.dest_dir })
        }
    }
}

/// The arguments of `build`: the configuration path and the output
/// directory, or why they are refused.
pub open spec fn build_args_of(args: Seq<Seq<char>>) -> Result<(Seq<char>, Option<Seq<char>>), CliErrorView> {
    match build_scan(args, 0, BuildArgsView { config_path: None, dest_dir: None }) {
        Err(e) => Err(e),
        Ok(st) => match st.config_path {
            None => Err(CliErrorView::MissingConfigPath),
            Some(p) => Ok((p, st.dest_dir)),
        },
    }
}

fn starts_with_dash(s: &str) -> (r: bool)
    ensures
        r == (s@.len() > 0 && s@[0] == '-'),
{
    let cs = chars_of(s);
    cs.len() > 0 && cs[0] == '-'
}

/// Reads the arguments of `build`.
pub fn parse_build_args(args: Vec<String>) -> (r: Result<(String, Option<String>), CliError>)
    ensures
        match build_args_of(args.deep_view()) {
            Ok((p, d)) => r matches Ok(x) && x.0@ == p && crate::text::opt_view(x.1) == d,
            Err(e) => r matches Err(x) && x@ == e,
        },
{
    let ghost all = args.deep_view();
    let mut config_path: Option<String> = None;
    let mut dest_dir: Option<String> = None;
    let mut i: usize = 0;
    while i < args.len()
        invariant
            i <= args.len(),
            all == args.deep_view(),
            build_scan(all, 0, BuildArgsView { config_path: None, dest_dir: None }) == build_scan(
                all,
                i as int,
                BuildArgsView {
                    config_path: crate::text::opt_view(config_path),
                    dest_dir: crate::text::opt_view(dest_dir),
                },
            ),
        decreases args.len() - i,
    {
        let arg = &args[i];
        assert(all[i as int] == arg@);
        if str_eq(arg.as_str(), "--dest-dir") || str_eq(arg.as_str(), "-d") {
            if i + 1 >= args.len() {
                return Err(CliError::MissingValue { flag: copy_string(arg) });
            }
            if dest_dir.is_some() {
                return Err(CliError::RepeatedDestDir);
            }
            assert(all[i + 1] == args@[i + 1]@);
            dest_dir = Some(copy_string(&args[i + 1]));
            i += 2;
        } else if starts_with_dash(arg.as_str()) {
            return Err(CliError::UnknownFlag { command: Command::Build, flag: copy_string(arg) });
        } else {
            if config_path.is_some() {
                return Err(CliError::ExtraConfigPath { command: Command::Build });
            }
            config_path = Some(copy_string(arg));
            i += 1;
        }
    }
    match config_path {
        None => Err(CliError::MissingConfigPath),
        Some(p) => Ok((p, dest_dir)),
    }
}

/// What `serve` reads: the configuration path, the output directory, the
/// host name and the port.
pub struct ServeArgsView {
    pub config_path: Option<Seq<char>>,
    pub dest_dir: Option<Seq<char>>,
    pub hostname: Seq<char>,
    pub port: u16,
}

/// The arguments of `serve` from `i` on, read into `st`: `--dest-dir`
/// (`-d`) once, `--hostname` (`-n`) and `--port` (`-p`) each with a value
/// (the last one counts), and exactly one path.
pub open spec fn serve_scan(args: Seq<Seq<char>>, i: int, st: ServeArgsView) -> Result<ServeArgsView, CliErrorView>
    decreases args.len() - i,
{
    if i < 0 || i >= args.len() {
        Ok(st)
    } else {
        let a = args[i];
        if a == "--dest-dir"@ || a == "-d"@ {
            if i + 1 >= args.len() {
                Err(CliErrorView::MissingValue { flag: a })
            } else if st.dest_dir is Some {
                Err(CliErrorView::RepeatedDestDir)
            } else {
                serve_scan(
                    args,
                    i + 2,
                    ServeArgsView {
                        config_path: st.config_path,
                        dest_dir: Some(args[i + 1]),
                        hostname: st.hostname,
                        port: st.port,
                    },
                )
            }
        } else if a == "--hostname"@ || a == "-n"@ {
            if i + 1 >= args.len() {
                Err(CliErrorView::MissingValue { flag: a })
            } else {
                serve_scan(
                    args,
                    i + 2,
                    ServeArgsView {
                        config_path: st.config_path,
                        dest_dir: st.dest_dir,
                        hostname: args[i + 1],
                        port: st.port,
                    },
                )
            }
        } else if a == "--port"@ || a == "-p"@ {
            if i + 1 >= args.len() {
                Err(CliErrorView::MissingValue { flag: a })
            } else {
                match parsed_u16(args[i + 1]) {
                    None => Err(CliErrorView::InvalidPort { value: args[i + 1] }),
                    Some(p) => serve_scan(
                        args,
                        i + 2,
                        ServeArgsView {
                            config_path: st.config_path,
                            dest_dir: st.dest_dir,
                            hostname: st.hostname,
                            port: p,
                        },
                    ),
                }
            }
        } else if a.len() > 0 && a[0] == '-' {
            Err(CliErrorView::UnknownFlag { command: Command::Serve, flag: a })
        } else if st.config_path is Some {
            Err(CliErrorView::ExtraConfigPath { command: Command::Serve })
        } else {
            serve_scan(
                args,
                i + 1,
                ServeArgsView { config_path: Some(a), dest_dir: st.dest_dir, hostname: st.hostname, port: st.port },
            )
        }
    }
}

/// The options of `serve`, or why its arguments are refused; the host is
/// `localhost` and the port 3000 unless given.
pub open spec fn serve_args_of(args: Seq<Seq<char>>) -> Result<ServeArgsView, CliErrorView> {
    match serve_scan(
        args,
        0,
        ServeArgsView { config_path: None, dest_dir: None, hostname: "localhost"@, port: 3000 },
    ) {
        Err(e) => Err(e),
        Ok(st) => match st.config_path {
            None => Err(CliErrorView::MissingConfigPath),
            Some(_) => Ok(st),
        },
    }
}

/// Reads the arguments of `serve`.
pub fn parse_serve_args(args: Vec<String>) -> (r: Result<ServeOptions, CliError>)
    ensures
        match serve_args_of(args.deep_view()) {
            Ok(st) => r matches Ok(o) && Some(o.config_path@) == st.config_path && crate::text::opt_view(o.dest_dir)
                == st.dest_dir && o.hostname@ == st.hostname && o.port == Some(st.port),
            Err(e) => r matches Err(x) && x@ == e,
        },
{
    let ghost all = args.deep_view();
    let mut config_path: Option<String> = None;
    let mut dest_dir: Option<String> = None;
    let mut hostname = string_from("localhost");
    let mut port: u16 = 3000;
    let mut i: usize = 0;
    while i < args.len()
        invariant
            i <= args.len(),
            all == args.deep_view(),
            serve_scan(
                all,
                0,
                ServeArgsView { config_path: None, dest_dir: None, hostname: "localhost"@, port: 3000 },
            ) == serve_scan(
                all,
                i as int,
                ServeArgsView {
                    config_path: crate::text::opt_view(config_path),
                    dest_dir: crate::text::opt_view(dest_dir),
                    hostname: hostname@,
                    port,
                },
            ),
        decreases args.len() - i,
    {
        let arg = &args[i];
        assert(all[i as int] == arg@);
        if str_eq(arg.as_str(), "--dest-dir") || str_eq(arg.as_str(), "-d") {
            if i + 1 >= args.len() {
                return Err(CliError::MissingValue { flag: copy_string(arg) });
            }
            if dest_dir.is_some() {
                return Err(CliError::RepeatedDestDir);
            }
            assert(all[i + 1] == args@[i + 1]@);
            dest_dir = Some(copy_string(&args[i + 1]));
            i += 2;
        } else if str_eq(arg.as_str(), "--hostname") || str_eq(arg.as_str(), "-n") {
            if i + 1 >= args.len() {
                return Err(CliError::MissingValue { flag: copy_string(arg) });
            }
            assert(all[i + 1] == args@[i + 1]@);
            hostname = copy_string(&args[i + 1]);
            i += 2;
        } else if str_eq(arg.as_str(), "--port") || str_eq(arg.as_str(), "-p") {
            if i + 1 >= args.len() {
                return Err(CliError::MissingValue { flag: copy_string(arg) });
            }
            assert(all[i + 1] == args@[i + 1]@);
            match parse_port(args[i + 1].as_str()) {
                None => {
                    return Err(CliError::InvalidPort { value: copy_string(&args[i + 1]) });
                },
                Some(p) => {
                    port = p;
                },
            }
            i += 2;
        } else if starts_with_dash(arg.as_str()) {
            return Err(CliError::UnknownFlag { command: Command::Serve, flag: copy_string(arg) });
        } else {
            if config_path.is_some() {
                return Err(CliError::ExtraConfigPath { command: Command::Serve });
            }
            config_path = Some(copy_string(arg));
            i += 1;
        }
    }
    match config_path {
        None => Err(CliError::MissingConfigPath),
        Some(p) => Ok(ServeOptions { config_path: p, dest_dir, hostname, port: Some(port) }),
    }
}

} // verus!
