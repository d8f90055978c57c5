//! Configuration: the command line, the config file's sections, and how they
//! combine (command line over config file over defaults).
use vstd::prelude::*;

use crate::text::{chars_of, string_of};

verus! {

/// Returns `true`; the default of the sandbox setting.
pub fn default_true() -> (r: bool)
    ensures
        r,
{
    true
}

/// Sandbox configuration section
#[derive(Debug)]
pub struct SandboxConfig {
    /// Whether sandbox mode is enabled (default: true)
    pub enabled: bool,
}

impl Default for SandboxConfig {
    fn default() -> (r: SandboxConfig)
        ensures
            r.enabled,
    {
        SandboxConfig { enabled: default_true() }
    }
}

/// Configuration file structure loaded from ~/.config/komori/config.toml
#[derive(Debug)]
pub struct ConfigFile {
    pub sandbox: SandboxConfig,
}

impl Default for ConfigFile {
    fn default() -> (r: ConfigFile)
        ensures
            r.sandbox.enabled,
    {
        ConfigFile { sandbox: SandboxConfig::default() }
    }
}

/// CLI arguments parsed from command line
#[derive(Debug)]
pub struct CliArgs {
    /// Starting directory
    pub directory: Option<String>,
    /// Explicit sandbox override from CLI (None = not specified)
    pub sandbox: Option<bool>,
    /// Show help
    pub help: bool,
}

/// Command-line arguments as plain values.
pub struct CliView {
    pub directory: Option<Seq<char>>,
    pub sandbox: Option<bool>,
    pub help: bool,
}

impl View for CliArgs {
    type V = CliView;

    open spec fn view(&self) -> CliView {
        CliView {
            directory: match self.directory {
                Some(d) => Some(d@),
                None => None,
            },
            sandbox: self.sandbox,
            help: self.help,
        }
    }
}

impl Default for CliArgs {
    fn default() -> (r: CliArgs)
        ensures
            r@ == default_cli(),
    {
        CliArgs { directory: None, sandbox: None, help: false }
    }
}

/// Nothing given on the command line.
pub open spec fn default_cli() -> CliView {
    CliView { directory: None, sandbox: None, help: false }
}

/// The effect of one command-line argument: `--sandbox`/`-s` and
/// `--no-sandbox`/`-S` set the sandbox, `--help`/`-h` asks for help, an
/// argument that does not start with `-` is the starting directory, and any
/// other argument is refused.
pub open spec fn apply_arg(c: CliView, a: Seq<char>) -> Result<CliView, Seq<char>> {
    if a == "--sandbox"@ || a == "-s"@ {
        Ok(CliView { sandbox: Some(true), ..c })
    } else if a == "--no-sandbox"@ || a == "-S"@ {
        Ok(CliView { sandbox: Some(false), ..c })
    } else if a == "--help"@ || a == "-h"@ {
        Ok(CliView { help: true, ..c })
    } else if a.len() == 0 || a[0] != '-' {
        Ok(CliView { directory: Some(a), ..c })
    } else {
        Err(a)
    }
}

/// The arguments `args` applied in order to `c`; the first refused argument
/// ends the parse.
pub open spec fn parse_from(c: CliView, args: Seq<Seq<char>>) -> Result<CliView, Seq<char>>
    decreases args.len(),
{
    if args.len() == 0 {
        Ok(c)
    } else {
        match apply_arg(c, args[0]) {
            Ok(c2) => parse_from(c2, args.drop_first()),
            Err(e) => Err(e),
        }
    }
}

/// The command line `args` (the program name left out), parsed.
pub open spec fn parsed_cli(args: Seq<Seq<char>>) -> Result<CliView, Seq<char>> {
    parse_from(default_cli(), args)
}

/// Whether the characters `cs` spell `w`.
fn is_word(cs: &Vec<char>, w: &str) -> (r: bool)
    ensures
        r == (cs@ == w@),
{
    let ws = chars_of(w);
    if cs.len() != ws.len() {
        return false;
    }
    let mut i: usize = 0;
    while i < cs.len()
        invariant
            i <= cs.len(),
            cs.len() == ws.len(),
            ws@ == w@,
            cs@.take(i as int) =~= ws@.take(i as int),
        decreases cs.len() - i,
    {
        if cs[i] != ws[i] {
            return false;
        }
        i = i + 1;
    }
    assert(cs@ =~= cs@.take(cs.len() as int));
    assert(ws@ =~= ws@.take(ws.len() as int));
    true
}

/// Parse the command-line arguments `args` (the program name left out).
/// An unknown option is returned as the error.
pub fn parse_cli(args: &Vec<String>) -> (r: Result<CliArgs, String>)
    ensures
        match r {
            Ok(c) => parsed_cli(args.deep_view()) == Ok::<CliView, Seq<char>>(c@),
            Err(e) => parsed_cli(args.deep_view()) == Err::<CliView, Seq<char>>(e@),
        },
{
    let mut cli = CliArgs::default();
    let ghost all = args.deep_view();
    let mut i: usize = 0;
    assert(all.skip(0) =~= all);
    while i < args.len()
        invariant
            all == args.deep_view(),
            i <= args.len(),
            parse_from(cli@, all.skip(i as int)) == parsed_cli(all),
        decreases args.len() - i,
    {
        let arg = &args[i];
        let cs = chars_of(arg.as_str());
        let ghost a = all[i as int];
        assert(all.skip(i as int)[0] == a);
        assert(all.skip(i as int).drop_first() =~= all.skip(i + 1));
        if is_word(&cs, "--sandbox") || is_word(&cs, "-s") {
            cli.sandbox = Some(true);
        } else if is_word(&cs, "--no-sandbox") || is_word(&cs, "-S") {
            cli.sandbox = Some(false);
        } else if is_word(&cs, "--help") || is_word(&cs, "-h") {
            cli.help = true;
        } else if cs.len() == 0 || cs[0] != '-' {
            cli.directory = Some(arg.clone());
        } else {
            return Err(arg.clone());
        }
        i = i + 1;
    }
    Ok(cli)
}

/// Final resolved configuration
#[derive(Debug)]
pub struct Config {
    /// Starting directory
    pub start_dir: String,
    /// Whether sandbox mode is enabled
    pub sandbox_enabled: bool,
}

/// The starting directory and sandbox setting from the command line `cli`,
/// the config file's sandbox setting and the working directory, if known.
pub open spec fn resolved(cli: CliView, file_sandbox: bool, current_dir: Option<Seq<char>>) -> (
    Seq<char>,
    bool,
) {
    (
        match cli.directory {
            Some(d) => d,
            None => match current_dir {
                Some(d) => d,
                None => seq!['.'],
            },
        },
        match cli.sandbox {
            Some(b) => b,
            None => file_sandbox,
        },
    )
}

impl Config {
    /// Combine the sources of the configuration: the starting directory is
    /// the one given on the command line, else `current_dir` (the process's
    /// working directory, if it could be read), else `.`; the sandbox
    /// setting is the command line's, else the config file's.
    pub fn resolve(cli: CliArgs, file: &ConfigFile, current_dir: Option<String>) -> (c: Config)
        ensures
            c.start_dir@ == (match cli.directory {
                Some(d) => d@,
                None => match current_dir {
                    Some(d) => d@,
                    None => seq!['.'],
                },
            }),
            c.sandbox_enabled == (match cli.sandbox {
                Some(b) => b,
                None => file.sandbox.enabled,
            }),
            (c.start_dir@, c.sandbox_enabled) == resolved(
                cli@,
                file.sandbox.enabled,
                match current_dir {
                    Some(d) => Some(d@),
                    None => None,
                },
            ),
    {
        let start_dir = match cli.directory {
            Some(d) => d,
            None => match current_dir {
                Some(d) => d,
                None => string_of(&vec!['.']),
            },
        };
        let sandbox_enabled = match cli.sandbox {
            Some(b) => b,
            None => file.sandbox.enabled,
        };
        Config { start_dir, sandbox_enabled }
    }
}

} // verus!
