//! The command line.

use vstd::prelude::*;
use crate::model::{opt_view, views};
use crate::text;

verus! {

/// What the command line asks for.
#[derive(Debug, Clone, PartialEq, Eq)]
pub struct CliOptions {
    /// The config file to read instead of the default one.
    pub config_path: Option<String>,
    /// The account to use instead of the configured one.
    pub account: Option<String>,
    /// Run the first-time setup even where the configuration is complete.
    pub force_setup: bool,
    /// Launch with dummy data, without backend.
    pub demo_mode: bool,
    /// Keep nothing on disk.
    pub incognito: bool,
    /// Write a debug log.
    pub debug: bool,
}

/// What a [`CliOptions`] holds.
pub struct CliOptionsView {
    pub config_path: Option<Seq<char>>,
    pub account: Option<Seq<char>>,
    pub force_setup: bool,
    pub demo_mode: bool,
    pub incognito: bool,
    pub debug: bool,
}

impl View for CliOptions {
    type V = CliOptionsView;

    open spec fn view(&self) -> CliOptionsView {
        CliOptionsView {
            config_path: opt_view(self.config_path),
            account: opt_view(self.account),
            force_setup: self.force_setup,
            demo_mode: self.demo_mode,
            incognito: self.incognito,
            debug: self.debug,
        }
    }
}

/// What is to be done with a command line.
#[derive(Debug, Clone, PartialEq, Eq)]
pub enum CliOutcome {
    /// Run with these options.
    Run(CliOptions),
    /// Print the usage and leave.
    Help,
    /// Print the complaint and leave with a failure.
    Error(String),
}

/// What a [`CliOutcome`] holds.
pub enum CliOutcomeView {
    Run(CliOptionsView),
    Help,
    Error(Seq<char>),
}

impl View for CliOutcome {
    type V = CliOutcomeView;

    open spec fn view(&self) -> CliOutcomeView {
        match *self {
            CliOutcome::Run(o) => CliOutcomeView::Run(o@),
            CliOutcome::Help => CliOutcomeView::Help,
            CliOutcome::Error(e) => CliOutcomeView::Error(e@),
        }
    }
}

/// The options of a command line without arguments.
pub open spec fn no_options() -> CliOptionsView {
    CliOptionsView {
        config_path: None,
        account: None,
        force_setup: false,
        demo_mode: false,
        incognito: false,
        debug: false,
    }
}

/// What is to be done with the arguments from place `i` on, given the
/// options that the arguments before have set.
///
/// The arguments are read from left to right, and the first one that asks
/// for the usage or is wrong decides. `-c` and `--config`, `-a` and
/// `--account` take the argument that follows as their value; an option
/// that is given twice has its last value.
pub open spec fn args_parsed(args: Seq<Seq<char>>, i: int, so_far: CliOptionsView) -> CliOutcomeView
    decreases args.len() - i,
{
    if i < 0 || i >= args.len() {
        CliOutcomeView::Run(so_far)
    } else {
        let arg = args[i];
        if arg == "-c"@ || arg == "--config"@ {
            if i + 1 < args.len() {
                args_parsed(
                    args,
                    i + 2,
                    CliOptionsView { config_path: Some(args[i + 1]), ..so_far },
                )
            } else {
                CliOutcomeView::Error("--config requires a path argument"@)
            }
        } else if arg == "-a"@ || arg == "--account"@ {
            if i + 1 < args.len() {
                args_parsed(args, i + 2, CliOptionsView { account: Some(args[i + 1]), ..so_far })
            } else {
                CliOutcomeView::Error("--account requires a phone number"@)
            }
        } else if arg == "--setup"@ {
            args_parsed(args, i + 1, CliOptionsView { force_setup: true, ..so_far })
        } else if arg == "--demo"@ {
            args_parsed(args, i + 1, CliOptionsView { demo_mode: true, ..so_far })
        } else if arg == "--incognito"@ {
            args_parsed(args, i + 1, CliOptionsView { incognito: true, ..so_far })
        } else if arg == "--debug"@ {
            args_parsed(args, i + 1, CliOptionsView { debug: true, ..so_far })
        } else if arg == "--help"@ {
            CliOutcomeView::Help
        } else {
            CliOutcomeView::Error("Unknown argument: "@ + arg)
        }
    }
}

/// Reads the command line. `args` holds the name of the program and then
/// the arguments; see [`args_parsed`].
pub fn parse_args(args: &Vec<String>) -> (r: CliOutcome)
    ensures
        r@ == args_parsed(views(args@), 1, no_options()),
{
    let mut options = CliOptions {
        config_path: None,
        account: None,
        force_setup: false,
        demo_mode: false,
        incognito: false,
        debug: false,
    };
    let mut i: usize = 1;
    while i < args.len()
        invariant
            1 <= i,
            args_parsed(views(args@), 1, no_options()) == args_parsed(views(args@), i as int, options@),
        decreases args@.len() - i,
    {
        let arg = args[i].as_str();
        proof {
            assert(views(args@)[i as int] == arg@);
        }
        if arg.eq("-c") || arg.eq("--config") {
            if i + 1 < args.len() {
                options.config_path = Some(args[i + 1].clone());
                i += 2;
            } else {
                return CliOutcome::Error(String::from_str("--config requires a path argument"));
            }
        } else if arg.eq("-a") || arg.eq("--account") {
            if i + 1 < args.len() {
                options.account = Some(args[i + 1].clone());
                i += 2;
            } else {
                return CliOutcome::Error(String::from_str("--account requires a phone number"));
            }
        } else if arg.eq("--setup") {
            options.force_setup = true;
            i += 1;
        } else if arg.eq("--demo") {
            options.demo_mode = true;
            i += 1;
        } else if arg.eq("--incognito") {
            options.incognito = true;
            i += 1;
        } else if arg.eq("--debug") {
            options.debug = true;
            i += 1;
        } else if arg.eq("--help") {
            return CliOutcome::Help;
        } else {
            return CliOutcome::Error(text::concat("Unknown argument: ", arg));
        }
    }
    CliOutcome::Run(options)
}

/// The usage of the program, line by line.
pub fn usage() -> (lines: Vec<&'static str>)
    ensures
        lines@.len() == 12,
        lines@[0]@ == "signal-tui - Terminal Signal client"@,
        lines@[1]@ == ""@,
        lines@[2]@ == "Usage: signal-tui [OPTIONS]"@,
        lines@[3]@ == ""@,
        lines@[4]@ == "Options:"@,
        lines@[5]@ == "  -a, --account <NUMBER>  Phone number (E.164 format)"@,
        lines@[6]@ == "  -c, --config <PATH>     Config file path"@,
        lines@[7]@ == "      --setup             Run first-time setup wizard"@,
        lines@[8]@ == "      --demo              Launch with dummy data (no signal-cli needed)"@,
        lines@[9]@ == "      --incognito         No local message storage (in-memory only)"@,
        lines@[10]@ == "      --debug             Write a debug log"@,
        lines@[11]@ == "      --help              Show this help"@,
{
    let mut lines: Vec<&'static str> = Vec::new();
    lines.push("signal-tui - Terminal Signal client");
    lines.push("");
    lines.push("Usage: signal-tui [OPTIONS]");
    lines.push("");
    lines.push("Options:");
    lines.push("  -a, --account <NUMBER>  Phone number (E.164 format)");
    lines.push("  -c, --config <PATH>     Config file path");
    lines.push("      --setup             Run first-time setup wizard");
    lines.push("      --demo              Launch with dummy data (no signal-cli needed)");
    lines.push("      --incognito         No local message storage (in-memory only)");
    lines.push("      --debug             Write a debug log");
    lines.push("      --help              Show this help");
    lines
}

} // verus!
