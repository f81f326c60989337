//! Target resolution: parsing a user-supplied target string into a local
//! command or a remote URL descriptor, and classifying its kind.

use vstd::prelude::*;

use crate::chars::trimmed;

verus! {

/// Classification of the high-level target kind.
#[derive(Debug, Clone, Copy, PartialEq, Eq, Structural)]
pub enum TargetKind {
    LocalProcess,
    RemoteHttp,
    RemoteWs,
    Unknown,
}

/// The scheme of the text when it parses as an absolute URL, `None`
/// otherwise; a function of the text alone.
pub uninterp spec fn url_scheme_of(s: Seq<char>) -> Option<Seq<char>>;

/// Relies on `url::Url::parse` and `url::Url::scheme`: the scheme of the
/// text when it parses as an absolute URL. Both are functions of the text
/// alone.
#[verifier::external_body]
fn parse_url_scheme(s: &str) -> (r: Option<String>)
    ensures
        match r {
            Some(sch) => url_scheme_of(s@) == Some(sch@),
            None => url_scheme_of(s@) is None,
        },
{
    match url::Url::parse(s) {
        Ok(u) => Some(u.scheme().to_string()),
        Err(_) => None,
    }
}

/// The tokens of the text under POSIX-shell splitting rules, or `None` where
/// a quote is left unclosed; a function of the text alone.
pub uninterp spec fn shell_tokens_of(s: Seq<char>) -> Option<Seq<Seq<char>>>;

/// Relies on `shell_words::split`: the shell-style tokens of the text, or
/// the crate's only error, an unclosed quote. A function of the text alone.
#[verifier::external_body]
fn shell_split(s: &str) -> (r: Option<Vec<String>>)
    ensures
        match r {
            Some(v) => shell_tokens_of(s@) == Some(v@.map_values(|t: String| t@)),
            None => shell_tokens_of(s@) is None,
        },
{
    match shell_words::split(s) {
        Ok(v) => Some(v),
        Err(_) => None,
    }
}

pub open spec fn scheme_http() -> Seq<char> {
    seq!['h', 't', 't', 'p']
}

pub open spec fn scheme_https() -> Seq<char> {
    seq!['h', 't', 't', 'p', 's']
}

pub open spec fn scheme_ws() -> Seq<char> {
    seq!['w', 's']
}

pub open spec fn scheme_wss() -> Seq<char> {
    seq!['w', 's', 's']
}

/// The URL schemes accepted as remote targets.
pub open spec fn is_remote_scheme(sch: Seq<char>) -> bool {
    sch == scheme_http() || sch == scheme_https() || sch == scheme_ws() || sch == scheme_wss()
}

/// A parsed representation of a user-supplied target string: either a local
/// command to spawn, or a remote URL. The original input is retained for
/// diagnostics.
#[derive(Debug, Clone)]
pub enum TargetSpec {
    /// A local process to be spawned: program and arguments, in the order
    /// the tokens were parsed.
    LocalCommand { original: String, program: String, args: Vec<String> },
    /// A remote endpoint; only its scheme drives any decision here.
    RemoteUrl { original: String, scheme: String },
}

/// Mathematical shape of a target descriptor.
pub enum TargetSpecModel {
    LocalCommand { original: Seq<char>, program: Seq<char>, args: Seq<Seq<char>> },
    RemoteUrl { original: Seq<char>, scheme: Seq<char> },
}

impl View for TargetSpec {
    type V = TargetSpecModel;

    open spec fn view(&self) -> TargetSpecModel {
        match self {
            TargetSpec::LocalCommand { original, program, args } => TargetSpecModel::LocalCommand {
                original: original@,
                program: program@,
                args: args@.map_values(|a: String| a@),
            },
            TargetSpec::RemoteUrl { original, scheme } => TargetSpecModel::RemoteUrl {
                original: original@,
                scheme: scheme@,
            },
        }
    }
}

/// Why a target string is rejected.
#[derive(Debug, Clone, Copy, PartialEq, Eq, Structural)]
pub enum ParseTargetError {
    /// The string is empty after trimming.
    EmptyTarget,
    /// Shell-style splitting failed (an unclosed quote).
    SplitFailed,
    /// Splitting produced no tokens at all.
    NoTokens,
    /// The first token, the program, is empty.
    EmptyProgram,
}

impl ParseTargetError {
    /// A human-readable description of the rejection.
    pub fn message(&self) -> (r: &'static str)
        ensures
            (*self is EmptyTarget) ==> r@ == "Target string is empty"@,
            (*self is SplitFailed) ==> r@ == "Failed to parse local command line (shell splitting)"@,
            (*self is NoTokens) ==> r@ == "No tokens produced when parsing local command target"@,
            (*self is EmptyProgram) ==> r@ == "Empty program name in local command target"@,
    {
        match self {
            ParseTargetError::EmptyTarget => "Target string is empty",
            ParseTargetError::SplitFailed => "Failed to parse local command line (shell splitting)",
            ParseTargetError::NoTokens => "No tokens produced when parsing local command target",
            ParseTargetError::EmptyProgram => "Empty program name in local command target",
        }
    }
}

/// The local-command reading of a trimmed target string.
pub open spec fn spec_parse_local(raw: Seq<char>, t: Seq<char>) -> Result<
    TargetSpecModel,
    ParseTargetError,
> {
    match shell_tokens_of(t) {
        None => Err(ParseTargetError::SplitFailed),
        Some(parts) => if parts.len() == 0 {
            Err(ParseTargetError::NoTokens)
        } else if parts[0].len() == 0 {
            Err(ParseTargetError::EmptyProgram)
        } else {
            Ok(
                TargetSpecModel::LocalCommand {
                    original: raw,
                    program: parts[0],
                    args: parts.drop_first(),
                },
            )
        },
    }
}

/// What target parsing yields: an empty (trimmed) string is rejected; a
/// string that parses as a URL with scheme `http`, `https`, `ws` or `wss` is
/// a remote target; anything else — including a URL with an unrelated
/// scheme — is read as a shell-style local command line whose first token,
/// which must be non-empty, is the program.
pub open spec fn spec_parse_target(raw: Seq<char>) -> Result<TargetSpecModel, ParseTargetError> {
    let t = trimmed(raw);
    if t.len() == 0 {
        Err(ParseTargetError::EmptyTarget)
    } else {
        match url_scheme_of(t) {
            Some(sch) => if is_remote_scheme(sch) {
                Ok(TargetSpecModel::RemoteUrl { original: raw, scheme: sch })
            } else {
                spec_parse_local(raw, t)
            },
            None => spec_parse_local(raw, t),
        }
    }
}

/// Parse a target string into a structured `TargetSpec`, exactly as
/// `spec_parse_target` describes.
pub fn parse_target(raw: &str) -> (r: Result<TargetSpec, ParseTargetError>)
    ensures
        match r {
            Ok(spec) => spec_parse_target(raw@) == Ok::<_, ParseTargetError>(spec@),
            Err(e) => spec_parse_target(raw@) == Err::<TargetSpecModel, _>(e),
        },
{
    let trimmed_raw = crate::chars::trim_str(raw);
    if trimmed_raw.as_str().unicode_len() == 0 {
        return Err(ParseTargetError::EmptyTarget);
    }
    proof {
        reveal_strlit("http");
        reveal_strlit("https");
        reveal_strlit("ws");
        reveal_strlit("wss");
        assert("http"@ =~= scheme_http());
        assert("https"@ =~= scheme_https());
        assert("ws"@ =~= scheme_ws());
        assert("wss"@ =~= scheme_wss());
    }
    match parse_url_scheme(trimmed_raw.as_str()) {
        Some(sch) => {
            let remote = crate::schema::str_eq(sch.as_str(), "http") || crate::schema::str_eq(
                sch.as_str(),
                "https",
            ) || crate::schema::str_eq(sch.as_str(), "ws") || crate::schema::str_eq(
                sch.as_str(),
                "wss",
            );
            if remote {
                return Ok(TargetSpec::RemoteUrl { original: raw.to_owned(), scheme: sch });
            }
            parse_local(raw, &trimmed_raw)
        },
        None => parse_local(raw, &trimmed_raw),
    }
}

fn parse_local(raw: &str, trimmed_raw: &String) -> (r: Result<TargetSpec, ParseTargetError>)
    requires
        trimmed_raw@ == trimmed(raw@),
    ensures
        match r {
            Ok(spec) => spec_parse_local(raw@, trimmed_raw@) == Ok::<_, ParseTargetError>(spec@),
            Err(e) => spec_parse_local(raw@, trimmed_raw@) == Err::<TargetSpecModel, _>(e),
        },
{
    match shell_split(trimmed_raw.as_str()) {
        None => Err(ParseTargetError::SplitFailed),
        Some(parts) => {
            let ghost parts_model = parts@.map_values(|t: String| t@);
            if parts.len() == 0 {
                return Err(ParseTargetError::NoTokens);
            }
            let program = parts[0].clone();
            if program.as_str().unicode_len() == 0 {
                return Err(ParseTargetError::EmptyProgram);
            }
            let np = parts.len();
            let mut args: Vec<String> = Vec::new();
            let mut i: usize = 1;
            while i < np
                invariant
                    1 <= i <= np,
                    np == parts.len(),
                    parts_model == parts@.map_values(|t: String| t@),
                    args@.map_values(|a: String| a@) =~= parts_model.subrange(1, i as int),
                decreases np - i,
            {
                let a = parts[i].clone();
                args.push(a);
                proof {
                    assert(parts_model.subrange(1, i + 1) =~= parts_model.subrange(
                        1,
                        i as int,
                    ).push(parts_model[i as int]));
                }
                i = i + 1;
            }
            proof {
                assert(parts_model.subrange(1, np as int) =~= parts_model.drop_first());
            }
            let spec = TargetSpec::LocalCommand { original: raw.to_owned(), program, args };
            Ok(spec)
        },
    }
}

/// Classification of a parsed target.
pub open spec fn spec_kind(m: TargetSpecModel) -> TargetKind {
    match m {
        TargetSpecModel::LocalCommand { .. } => TargetKind::LocalProcess,
        TargetSpecModel::RemoteUrl { scheme, .. } => if scheme == scheme_http() || scheme
            == scheme_https() {
            TargetKind::RemoteHttp
        } else if scheme == scheme_ws() || scheme == scheme_wss() {
            TargetKind::RemoteWs
        } else {
            TargetKind::Unknown
        },
    }
}

impl TargetSpec {
    /// The original user-supplied form.
    pub fn original(&self) -> (r: &str)
        ensures
            r@ == match self@ {
                TargetSpecModel::LocalCommand { original, .. } => original,
                TargetSpecModel::RemoteUrl { original, .. } => original,
            },
    {
        match self {
            TargetSpec::LocalCommand { original, .. } => original.as_str(),
            TargetSpec::RemoteUrl { original, .. } => original.as_str(),
        }
    }

    /// The abstract kind: a local process, or a remote endpoint split by
    /// scheme.
    pub fn kind(&self) -> (r: TargetKind)
        ensures
            r == spec_kind(self@),
    {
        proof {
            reveal_strlit("http");
            reveal_strlit("https");
            reveal_strlit("ws");
            reveal_strlit("wss");
            assert("http"@ =~= scheme_http());
            assert("https"@ =~= scheme_https());
            assert("ws"@ =~= scheme_ws());
            assert("wss"@ =~= scheme_wss());
        }
        match self {
            TargetSpec::LocalCommand { .. } => TargetKind::LocalProcess,
            TargetSpec::RemoteUrl { scheme, .. } => {
                if crate::schema::str_eq(scheme.as_str(), "http") || crate::schema::str_eq(
                    scheme.as_str(),
                    "https",
                ) {
                    TargetKind::RemoteHttp
                } else if crate::schema::str_eq(scheme.as_str(), "ws") || crate::schema::str_eq(
                    scheme.as_str(),
                    "wss",
                ) {
                    TargetKind::RemoteWs
                } else {
                    TargetKind::Unknown
                }
            },
        }
    }

    /// Whether the target is a remote endpoint.
    pub fn is_remote(&self) -> (r: bool)
        ensures
            r == (spec_kind(self@) == TargetKind::RemoteHttp || spec_kind(self@)
                == TargetKind::RemoteWs),
    {
        match self.kind() {
            TargetKind::RemoteHttp => true,
            TargetKind::RemoteWs => true,
            _ => false,
        }
    }

    /// Whether the target is a local process.
    pub fn is_local(&self) -> (r: bool)
        ensures
            r == (spec_kind(self@) == TargetKind::LocalProcess),
    {
        match self.kind() {
            TargetKind::LocalProcess => true,
            _ => false,
        }
    }
}

/// Arguments joined with single spaces.
pub open spec fn join_spaced(args: Seq<Seq<char>>) -> Seq<char>
    decreases args.len(),
{
    if args.len() == 0 {
        Seq::empty()
    } else if args.len() == 1 {
        args[0]
    } else {
        args[0] + seq![' '] + join_spaced(args.drop_first())
    }
}

/// The one-line description of a target: `local: <program> <args>` for a
/// command, `remote: <original>` for a URL.
pub open spec fn spec_describe(m: TargetSpecModel) -> Seq<char> {
    match m {
        TargetSpecModel::LocalCommand { program, args, .. } => if args.len() == 0 {
            "local: "@ + program
        } else {
            "local: "@ + program + seq![' '] + join_spaced(args)
        },
        TargetSpecModel::RemoteUrl { original, .. } => "remote: "@ + original,
    }
}

proof fn lemma_join_spaced_take(args: Seq<Seq<char>>, i: int)
    requires
        1 <= i < args.len(),
    ensures
        join_spaced(args.take(i + 1)) == join_spaced(args.take(i)) + seq![' '] + args[i],
    decreases i,
{
    reveal_with_fuel(join_spaced, 3);
    let a = args.take(i + 1);
    let b = args.take(i);
    assert(a[0] == args[0]);
    if i == 1 {
        assert(a.drop_first() =~= seq![args[1]]);
        assert(b =~= seq![args[0]]);
        assert(join_spaced(a) == args[0] + seq![' '] + args[1]);
    } else {
        assert(a.drop_first() =~= args.drop_first().take(i));
        assert(b.drop_first() =~= args.drop_first().take(i - 1));
        lemma_join_spaced_take(args.drop_first(), i - 1);
        assert(args.drop_first().take(i) =~= args.drop_first().take(i - 1 + 1));
        assert(args.drop_first()[i - 1] == args[i]);
        assert((args[0] + seq![' '] + (join_spaced(args.drop_first().take(i - 1)) + seq![' ']
            + args[i])) =~= (args[0] + seq![' '] + join_spaced(args.drop_first().take(i - 1)))
            + seq![' '] + args[i]);
    }
}

impl TargetSpec {
    /// A one-line description of the target for diagnostics.
    pub fn describe(&self) -> (r: String)
        ensures
            r@ == spec_describe(self@),
    {
        match self {
            TargetSpec::LocalCommand { program, args, .. } => {
                let mut out = String::new();
                out.append("local: ");
                out.append(program.as_str());
                let ghost argv = args@.map_values(|a: String| a@);
                let n = args.len();
                let mut i: usize = 0;
                while i < n
                    invariant
                        0 <= i <= n,
                        n == args.len(),
                        argv == args@.map_values(|a: String| a@),
                        i == 0 ==> out@ == "local: "@ + program@,
                        i > 0 ==> out@ == "local: "@ + program@ + seq![' '] + join_spaced(
                            argv.take(i as int),
                        ),
                    decreases n - i,
                {
                    out.append(" ");
                    out.append(args[i].as_str());
                    proof {
                        reveal_strlit(" ");
                        assert(" "@ =~= seq![' ']);
                        if i == 0 {
                            assert(argv.take(1) =~= seq![argv[0]]);
                            assert(out@ =~= "local: "@ + program@ + seq![' '] + join_spaced(
                                argv.take(1),
                            ));
                        } else {
                            lemma_join_spaced_take(argv, i as int);
                            assert(out@ =~= "local: "@ + program@ + seq![' '] + join_spaced(
                                argv.take(i + 1),
                            ));
                        }
                    }
                    i = i + 1;
                }
                proof {
                    assert(argv.take(n as int) =~= argv);
                }
                out
            },
            TargetSpec::RemoteUrl { original, .. } => {
                let mut out = String::new();
                out.append("remote: ");
                out.append(original.as_str());
                proof {
                    assert(out@ =~= "remote: "@ + original@);
                }
                out
            },
        }
    }
}

/// Status of an established connection or process.
#[derive(Debug, Clone, Copy, PartialEq, Eq, Structural)]
pub enum ConnectionState {
    /// A local process was spawned.
    LocalSpawned,
    /// A remote endpoint was noted; remote transports are not driven here.
    RemotePending,
}

/// A target together with the state its connection reached.
#[derive(Debug, Clone)]
pub struct TargetConnection {
    pub spec: TargetSpec,
    pub state: ConnectionState,
}

/// The connection state a freshly established target starts in: spawned for
/// a local command, pending for a remote URL.
pub fn initial_connection_state(spec: &TargetSpec) -> (r: ConnectionState)
    ensures
        (spec@ is LocalCommand) ==> r == ConnectionState::LocalSpawned,
        (spec@ is RemoteUrl) ==> r == ConnectionState::RemotePending,
{
    match spec {
        TargetSpec::LocalCommand { .. } => ConnectionState::LocalSpawned,
        TargetSpec::RemoteUrl { .. } => ConnectionState::RemotePending,
    }
}

} // verus!
