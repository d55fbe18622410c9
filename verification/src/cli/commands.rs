//! What the command line can ask for. Parsing the arguments is left to the
//! program; these are the values it parses into.

use vstd::prelude::*;
use vstd::string::*;

verus! {

/// A parsed command line.
#[derive(Debug, Clone)]
pub struct Cli {
    pub command: Commands,
}

/// The commands. Each names the settings file it runs under, by its path
/// as text.
#[derive(Debug, Clone)]
pub enum Commands {
    /// Run the relay, in the background where `nohup` is set.
    Run { config: String, nohup: bool },
    /// Clear the tracking store, without asking where `confirm` is set.
    ClearCache { config: String, confirm: bool },
    /// Test the connection to the monitoring API.
    TestDynatrace { config: String },
    /// Send a test problem to every connector.
    TestConnectors { config: String },
    /// Show the statistics of the tracking store.
    Stats { config: String },
    /// Stop the relay that runs in the background.
    Stop { config: String },
}

impl Commands {
    /// The settings file that the command runs under.
    pub fn config(&self) -> (path: &String)
        ensures
            *path == match *self {
                Commands::Run { config, .. } => config,
                Commands::ClearCache { config, .. } => config,
                Commands::TestDynatrace { config } => config,
                Commands::TestConnectors { config } => config,
                Commands::Stats { config } => config,
                Commands::Stop { config } => config,
            },
    {
        match self {
            Commands::Run { config, .. } => config,
            Commands::ClearCache { config, .. } => config,
            Commands::TestDynatrace { config } => config,
            Commands::TestConnectors { config } => config,
            Commands::Stats { config } => config,
            Commands::Stop { config } => config,
        }
    }

    /// Whether a clearing of the store may go ahead: it was confirmed on
    /// the command line, or the answer to the prompt is `y` in either case,
    /// whatever blanks stand around it.
    pub open spec fn confirmed(confirm: bool, answer: Seq<char>) -> bool {
        confirm || crate::utils::process::trimmed(answer) == "y"@ || crate::utils::process::trimmed(
            answer,
        ) == "Y"@
    }

    /// Whether a clearing of the store may go ahead.
    pub fn clear_confirmed(confirm: bool, answer: &str) -> (go: bool)
        ensures
            go == Self::confirmed(confirm, answer@),
    {
        if confirm {
            return true;
        }
        let reply = crate::utils::process::trim_text(answer);
        let n = reply.unicode_len();
        proof {
            reveal_strlit("y");
            reveal_strlit("Y");
        }
        if n != 1 {
            return false;
        }
        let c = reply.get_char(0);
        proof {
            if c == 'y' {
                assert(reply@ =~= "y"@);
            }
            if c == 'Y' {
                assert(reply@ =~= "Y"@);
            }
        }
        c == 'y' || c == 'Y'
    }
}

} // verus!
