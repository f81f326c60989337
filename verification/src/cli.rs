//! The command-line surface as plain data, and the command-level decisions:
//! target fallback, tool-name validation, interactive tool selection, and
//! the error texts the commands report.

use vstd::prelude::*;

use crate::chars::{i64_of_text, trimmed};
use crate::params::ParamTokenError;
use crate::schema::ToolDescriptor;
use crate::subject::Subject;

verus! {

/// Arguments of the `exec` command.
#[derive(Debug, Clone)]
pub struct ExecArgs {
    pub subject: Subject,
    pub tool: String,
    pub params: Vec<String>,
    pub param_file: Option<String>,
    pub interactive: bool,
    pub target: Option<String>,
    pub json: bool,
    pub raw: bool,
}

/// Arguments of the `fuzz` command.
#[derive(Debug, Clone)]
pub struct FuzzArgs {
    pub subject: Subject,
    pub tool: String,
    pub wordlist: String,
    pub placeholder: String,
    pub params: Vec<String>,
    pub param_file: Option<String>,
    pub target: Option<String>,
    pub json: bool,
    pub raw: bool,
}

/// Arguments of the `get` command.
#[derive(Debug, Clone)]
pub struct GetArgs {
    pub subject: Subject,
    pub name: Option<String>,
    pub json: bool,
    pub target: Option<String>,
}

/// Arguments of the `list` command.
#[derive(Debug, Clone)]
pub struct ListArgs {
    pub subject: Subject,
    pub json: bool,
    pub target: Option<String>,
}

/// One parsed command.
#[derive(Debug, Clone)]
pub enum Commands {
    List(ListArgs),
    Get(GetArgs),
    Exec(ExecArgs),
    Fuzz(FuzzArgs),
}

/// The whole parsed command line: global flags and the command.
#[derive(Debug, Clone)]
pub struct Cli {
    pub verbose: u8,
    pub quiet: bool,
    pub target: Option<String>,
    pub headers: Vec<String>,
    pub command: Commands,
}

/// The target value in effect: the explicit option wins over the
/// environment fallback, and a value that is empty after trimming counts as
/// absent rather than as an explicit empty target.
pub open spec fn spec_effective_target(
    explicit: Option<Seq<char>>,
    env: Option<Seq<char>>,
) -> Option<Seq<char>> {
    let from_env: Option<Seq<char>> = match env {
        Option::Some(t) => if trimmed(t).len() > 0 {
            Option::Some(trimmed(t))
        } else {
            Option::None
        },
        Option::None => Option::None,
    };
    match explicit {
        Option::Some(t) => if trimmed(t).len() > 0 {
            Option::Some(trimmed(t))
        } else {
            from_env
        },
        Option::None => from_env,
    }
}

/// Pick the target in effect from the explicit option and the environment
/// fallback, trimmed; whitespace-only values count as absent.
pub fn effective_target(explicit: Option<&str>, env: Option<&str>) -> (r: Option<String>)
    ensures
        ({
            let spec_r = spec_effective_target(
                match explicit {
                    Some(t) => Option::Some(t@),
                    None => Option::None,
                },
                match env {
                    Some(t) => Option::Some(t@),
                    None => Option::None,
                },
            );
            match r {
                Some(v) => spec_r == Option::Some(v@),
                None => spec_r is None,
            }
        }),
{
    match explicit {
        Some(t) => {
            let tt = crate::chars::trim_str(t);
            if tt.as_str().unicode_len() > 0 {
                return Some(tt);
            }
            match env {
                Some(e) => {
                    let te = crate::chars::trim_str(e);
                    if te.as_str().unicode_len() > 0 {
                        Some(te)
                    } else {
                        None
                    }
                },
                None => None,
            }
        },
        None => match env {
            Some(e) => {
                let te = crate::chars::trim_str(e);
                if te.as_str().unicode_len() > 0 {
                    Some(te)
                } else {
                    None
                }
            },
            None => None,
        },
    }
}

/// The tool name to invoke: the argument trimmed, or nothing where only
/// whitespace was given — an empty tool name is rejected.
pub fn validate_tool_name(name: &str) -> (r: Option<String>)
    ensures
        match r {
            Some(v) => v@ == trimmed(name@) && trimmed(name@).len() > 0,
            None => trimmed(name@).len() == 0,
        },
{
    let t = crate::chars::trim_str(name);
    if t.as_str().unicode_len() == 0 {
        None
    } else {
        Some(t)
    }
}

/// What interactive tool selection yields for one line of input: a number
/// from 1 to the tool count selects that tool's name; anything else
/// non-empty is taken as a name itself; empty input is an invalid
/// selection.
pub fn select_tool_by_input(tools: &Vec<ToolDescriptor>, input: &str) -> (r: Option<String>)
    ensures
        ({
            let t = trimmed(input@);
            let models = tools@.map_values(|d: ToolDescriptor| d@);
            match i64_of_text(t) {
                Some(v) => if 1 <= v && v <= models.len() {
                    r matches Some(name) && name@ == models[v - 1].name
                } else {
                    match r {
                        Some(name) => name@ == t && t.len() > 0,
                        None => t.len() == 0,
                    }
                },
                None => match r {
                    Some(name) => name@ == t && t.len() > 0,
                    None => t.len() == 0,
                },
            }
        }),
{
    let t = crate::chars::trim_str(input);
    match crate::chars::parse_i64(t.as_str()) {
        Some(v) => {
            if 1 <= v && v as u64 <= tools.len() as u64 {
                let idx: usize = (v as u64) as usize;
                return Some(tools[idx - 1].name.clone());
            }
            if t.as_str().unicode_len() == 0 {
                None
            } else {
                Some(t)
            }
        },
        None => {
            if t.as_str().unicode_len() == 0 {
                None
            } else {
                Some(t)
            }
        },
    }
}

/// The message reported for a malformed `KEY=VALUE` token: the reason and
/// the token itself.
pub fn invalid_param_message(kind: ParamTokenError, token: &str) -> (r: String)
    ensures
        kind == ParamTokenError::MissingEquals ==> r@ == "invalid --param (expected KEY=VALUE): "@
            + token@,
        kind == ParamTokenError::EmptyKey ==> r@ == "invalid --param (empty key): "@ + token@,
{
    let mut out = String::new();
    match kind {
        ParamTokenError::MissingEquals => {
            out.append("invalid --param (expected KEY=VALUE): ");
        },
        ParamTokenError::EmptyKey => {
            out.append("invalid --param (empty key): ");
        },
    }
    out.append(token);
    proof {
        if kind == ParamTokenError::MissingEquals {
            assert(out@ =~= "invalid --param (expected KEY=VALUE): "@ + token@);
        } else {
            assert(out@ =~= "invalid --param (empty key): "@ + token@);
        }
    }
    out
}

/// The message reported when the requested tool is not discovered.
pub fn tool_not_found_message(name: &str) -> (r: String)
    ensures
        r@ == "tool '"@ + name@ + "' not found"@,
{
    let mut out = String::new();
    out.append("tool '");
    out.append(name);
    out.append("' not found");
    proof {
        assert(out@ =~= "tool '"@ + name@ + "' not found"@);
    }
    out
}

/// The message reported when a required parameter is missing.
pub fn missing_required_message(name: &str) -> (r: String)
    ensures
        r@ == "missing required parameter: "@ + name@,
{
    let mut out = String::new();
    out.append("missing required parameter: ");
    out.append(name);
    proof {
        assert(out@ =~= "missing required parameter: "@ + name@);
    }
    out
}

/// The message reported when no target is in effect.
pub fn no_target_message() -> (r: &'static str)
    ensures
        r@ == "no target specified (use --target or MCP_TARGET)"@,
{
    "no target specified (use --target or MCP_TARGET)"
}

/// The message reported when a tool invocation fails, naming the tool.
pub fn invocation_failed_message(name: &str, detail: &str) -> (r: String)
    ensures
        r@ == "tool invocation failed: "@ + name@ + ": "@ + detail@,
{
    let mut out = String::new();
    out.append("tool invocation failed: ");
    out.append(name);
    out.append(": ");
    out.append(detail);
    proof {
        assert(out@ =~= "tool invocation failed: "@ + name@ + ": "@ + detail@);
    }
    out
}

/// The message reported when the target string cannot be parsed, with the
/// specific reason appended.
pub fn target_parse_message(target: &str, reason: &str) -> (r: String)
    ensures
        r@ == "Failed to parse target: '"@ + target@ + "': "@ + reason@,
{
    let mut out = String::new();
    out.append("Failed to parse target: '");
    out.append(target);
    out.append("': ");
    out.append(reason);
    proof {
        assert(out@ =~= "Failed to parse target: '"@ + target@ + "': "@ + reason@);
    }
    out
}

} // verus!
