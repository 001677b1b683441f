//! Assembly and preflight rules for the runtime configuration read once
//! at startup.

use vstd::prelude::*;
use vstd::string::StrSliceExecFns;
use crate::strutil::push_str;
use crate::command::{shlex_split, shlex_split_of};

verus! {

/// The runtime configuration: the credential handed to each child, the
/// adapter launch vector, and the working directory sessions start in.
#[derive(Debug, Clone)]
pub struct RuntimeConfig {
    pub anthropic_api_key: String,
    pub acp_command: String,
    pub acp_args: Vec<String>,
    pub cwd: String,
}

/// The adapter command line used when no override is configured: the
/// workspace package runner's filtered exec of the adapter package.
pub open spec fn default_adapter_command() -> Seq<char> {
    "pnpm --filter @mono/acp-adapter exec acp-adapter"@
}

/// The error text when the required credential is absent.
pub open spec fn missing_key_text() -> Seq<char> {
    "ANTHROPIC_API_KEY must be set before starting boss-engine"@
}

/// The error text when the configured command line cannot be word-split.
pub open spec fn unparsable_command_text(line: Seq<char>) -> Seq<char> {
    "could not parse BOSS_ACP_CMD: "@ + line
}

/// The error text when the configured command line has no words.
pub open spec fn empty_command_text() -> Seq<char> {
    "BOSS_ACP_CMD resolved to an empty command"@
}

impl RuntimeConfig {
    /// Assembles the configuration from the raw environment values: the
    /// credential is required; the adapter command line (the override, or
    /// the default) is word-split into program and arguments and must
    /// yield at least one word.
    pub fn from_env_values(
        anthropic_api_key: Option<String>,
        acp_cmd: Option<String>,
        cwd: String,
    ) -> (r: Result<RuntimeConfig, String>)
        ensures
            ({
                let line = match acp_cmd {
                    Some(l) => l@,
                    None => default_adapter_command(),
                };
                match anthropic_api_key {
                    None => r matches Err(m) && m@ == missing_key_text(),
                    Some(key) => match shlex_split_of(line) {
                        None => (r matches Err(m) && m@ == unparsable_command_text(line)),
                        Some(parts) => {
                            if parts.len() == 0 {
                                r matches Err(m) && m@ == empty_command_text()
                            } else {
                                r matches Ok(cfg) && (cfg.anthropic_api_key == key
                                    && cfg.acp_command@ == parts[0] && cfg.acp_args.deep_view()
                                    == parts.skip(1) && cfg.cwd == cwd)
                            }
                        },
                    },
                }
            }),
    {
        let key = match anthropic_api_key {
            Some(key) => key,
            None => {
                return Err("ANTHROPIC_API_KEY must be set before starting boss-engine".to_owned());
            },
        };
        let line: String = match acp_cmd {
            Some(l) => l,
            None => "pnpm --filter @mono/acp-adapter exec acp-adapter".to_owned(),
        };
        match shlex_split(line.as_str()) {
            None => {
                let mut m: String = "could not parse BOSS_ACP_CMD: ".to_owned();
                push_str(&mut m, line.as_str());
                Err(m)
            },
            Some(mut parts) => {
                if parts.len() == 0 {
                    Err("BOSS_ACP_CMD resolved to an empty command".to_owned())
                } else {
                    let ghost whole = parts.deep_view();
                    let program = parts.remove(0);
                    proof {
                        assert(program@ == whole[0]);
                        assert(parts.deep_view() =~= whole.skip(1));
                    }
                    Ok(
                        RuntimeConfig {
                            anthropic_api_key: key,
                            acp_command: program,
                            acp_args: parts,
                            cwd,
                        },
                    )
                }
            },
        }
    }
}

/// What preflight must check for the adapter command: a command holding a
/// path separator must exist on disk; any other must be locatable on
/// `PATH`.
#[derive(Debug, PartialEq, Eq, Structural)]
pub enum PreflightCheck {
    PathMustExist,
    MustBeOnPath,
}

/// The preflight rule, by whether the command holds a `/`.
pub open spec fn preflight_rule(cmd: Seq<char>) -> PreflightCheck {
    if exists|i: int| 0 <= i < cmd.len() && cmd[i] == '/' {
        PreflightCheck::PathMustExist
    } else {
        PreflightCheck::MustBeOnPath
    }
}

/// Decides which preflight check the adapter command needs.
pub fn preflight_requirement(cmd: &str) -> (r: PreflightCheck)
    ensures
        r == preflight_rule(cmd@),
{
    let n = cmd.unicode_len();
    let mut i: usize = 0;
    loop
        invariant_except_break
            0 <= i <= n,
            n == cmd@.len(),
            forall|j: int| 0 <= j < i ==> cmd@[j] != '/',
        ensures
            (exists|j: int| 0 <= j < cmd@.len() && cmd@[j] == '/') == (i < cmd@.len()),
        decreases n - i,
    {
        if i >= n {
            proof {
                assert(!(exists|j: int| 0 <= j < cmd@.len() && cmd@[j] == '/')) by {
                    if exists|j: int| 0 <= j < cmd@.len() && cmd@[j] == '/' {
                        let j = choose|j: int| 0 <= j < cmd@.len() && cmd@[j] == '/';
                    }
                }
            }
            break;
        }
        if cmd.get_char(i) == '/' {
            break;
        }
        i = i + 1;
    }
    if i < n {
        PreflightCheck::PathMustExist
    } else {
        PreflightCheck::MustBeOnPath
    }
}

/// The error text when a path-shaped adapter command is missing on disk;
/// like every startup failure it points at the override variable.
pub open spec fn missing_path_text(cmd: Seq<char>) -> Seq<char> {
    "ACP command does not exist: "@ + cmd + " (set BOSS_ACP_CMD to override)"@
}

/// Builds the error text for a path-shaped adapter command missing on
/// disk.
pub fn missing_path_message(cmd: &str) -> (r: String)
    ensures
        r@ == missing_path_text(cmd@),
{
    let mut m: String = "ACP command does not exist: ".to_owned();
    push_str(&mut m, cmd);
    push_str(&mut m, " (set BOSS_ACP_CMD to override)");
    m
}

/// The error text when the adapter command cannot be found on `PATH`.
pub open spec fn not_on_path_text(cmd: Seq<char>) -> Seq<char> {
    "ACP command not found on PATH: "@ + cmd + " (set BOSS_ACP_CMD to override)"@
}

/// Builds the error text for an adapter command missing from `PATH`.
pub fn not_on_path_message(cmd: &str) -> (r: String)
    ensures
        r@ == not_on_path_text(cmd@),
{
    let mut m: String = "ACP command not found on PATH: ".to_owned();
    push_str(&mut m, cmd);
    push_str(&mut m, " (set BOSS_ACP_CMD to override)");
    m
}

} // verus!
