//! The resolution orchestrator: one pipeline from a resource reference to
//! either a ready-to-run command or a typed terminal failure.
//!
//! The pipeline is pure: every external answer it consumes (query outputs,
//! entry file contents) enters as a value, so a resolution is a function of
//! its inputs alone.

use vstd::prelude::*;
use vstd::string::StringExecFns;
use crate::desktop_entry::{spec_parse, parse_desktop_file};
use crate::exec_args::{shell_split, spec_substitute, args_from_exec_string};
use crate::query::{
    DesktopKind,
    QueryError,
    spec_normalize,
    normalize_query_output,
};
use crate::text::{has_suffix, ends_with_str, str_eq};

verus! {

/// The scheme under which this text parses as an absolute URL, or `None`
/// when it does not; a function of the text alone.
pub uninterp spec fn url_scheme(s: Seq<char>) -> Option<Seq<char>>;

/// Relies on url::Url::parse and url::Url::scheme: whether the text parses
/// as an absolute URL, and that URL's scheme; both depend on the text alone.
#[verifier::external_body]
fn parse_url_scheme(s: &str) -> (r: Option<String>)
    ensures
        r is Some <==> url_scheme(s@) is Some,
        r matches Some(sch) ==> Some(sch@) == url_scheme(s@),
{
    match url::Url::parse(s) {
        Ok(u) => Some(u.scheme().to_owned()),
        Err(_) => None,
    }
}

/// The MIME type synthesized for a URL of scheme `scheme`.
pub open spec fn scheme_mime(scheme: Seq<char>) -> Seq<char> {
    "x-scheme-handler/"@ + scheme
}

/// The URL fast path: a resource that parses as an absolute URL gets its
/// MIME type synthesized from the scheme, and the environment's MIME query
/// is skipped entirely; any other resource falls through to that query.
pub fn mime_fast_path(resource: &String) -> (r: Option<String>)
    ensures
        r is Some <==> url_scheme(resource@) is Some,
        r matches Some(m) ==> Some(m@) == match url_scheme(resource@) {
            Some(s) => Some(scheme_mime(s)),
            None => None,
        },
{
    match parse_url_scheme(resource.as_str()) {
        Some(scheme) => {
            let mut m = String::from_str("x-scheme-handler/");
            m.append(scheme.as_str());
            Some(m)
        },
        None => None,
    }
}

/// The static fallback table consulted when the environment has no default
/// application registered for a MIME type.
pub open spec fn spec_fallback(mime: Seq<char>) -> Option<Seq<char>> {
    if mime == "application/vnd.microsoft.portable-executable"@ {
        Some("wine"@)
    } else if mime == "x-scheme-handler/file"@ {
        Some("firefox"@)
    } else {
        None
    }
}

/// The fallback handler for a MIME type the environment has no default for.
pub fn fallback_default(mime: &str) -> (r: Option<&'static str>)
    ensures
        r is Some <==> spec_fallback(mime@) is Some,
        r matches Some(h) ==> Some(h@) == spec_fallback(mime@),
{
    if str_eq(mime, "application/vnd.microsoft.portable-executable") {
        Some("wine")
    } else if str_eq(mime, "x-scheme-handler/file") {
        Some("firefox")
    } else {
        None
    }
}

/// A fully resolved launch: the program, its arguments, and the context
/// shown to the user before execution.
#[derive(Debug, Clone, PartialEq, Eq)]
pub struct ResolvedCommand {
    pub program: String,
    pub args: Vec<String>,
    pub mime: String,
    /// The desktop entry file the command came from, if one was parsed.
    pub entry_path: Option<String>,
    pub de: DesktopKind,
}

/// The mathematical image of a [`ResolvedCommand`].
#[verifier::ext_equal]
pub struct SpecResolved {
    pub program: Seq<char>,
    pub args: Seq<Seq<char>>,
    pub mime: Seq<char>,
    pub entry_path: Option<Seq<char>>,
    pub de: DesktopKind,
}

impl View for ResolvedCommand {
    type V = SpecResolved;

    open spec fn view(&self) -> SpecResolved {
        SpecResolved {
            program: self.program@,
            args: self.args.deep_view(),
            mime: self.mime@,
            entry_path: match self.entry_path {
                Some(p) => Some(p@),
                None => None,
            },
            de: self.de,
        }
    }
}

/// The terminal artifact of one resolution, consumed exactly once by the
/// presentation layer.
#[derive(Debug, Clone, PartialEq, Eq)]
pub enum Outcome {
    /// No resource reference was given at all.
    NoArgument,
    /// A query's output was unusable; always a hard stop.
    QueryFailure(QueryError),
    /// No desktop entry file for the handler could be found and parsed; the
    /// path of the last candidate tried is retained for display.
    ParseFailure { handler: String, path: String },
    /// The entry's `Exec` value could not be tokenized; the raw value is
    /// retained for diagnosis.
    MalformedExec(String),
    /// Nothing registered and no fallback; the MIME type and the original
    /// resource are retained so the user can act manually.
    NoDefaultFound { mime: String, resource: String },
    /// A command is ready to run.
    Ready(ResolvedCommand),
}

/// The mathematical image of an [`Outcome`].
#[verifier::ext_equal]
pub enum SpecOutcome {
    NoArgument,
    QueryFailure(QueryError),
    ParseFailure { handler: Seq<char>, path: Seq<char> },
    MalformedExec(Seq<char>),
    NoDefaultFound { mime: Seq<char>, resource: Seq<char> },
    Ready(SpecResolved),
}

impl View for Outcome {
    type V = SpecOutcome;

    open spec fn view(&self) -> SpecOutcome {
        match self {
            Outcome::NoArgument => SpecOutcome::NoArgument,
            Outcome::QueryFailure(e) => SpecOutcome::QueryFailure(*e),
            Outcome::ParseFailure { handler, path } => SpecOutcome::ParseFailure {
                handler: handler@,
                path: path@,
            },
            Outcome::MalformedExec(s) => SpecOutcome::MalformedExec(s@),
            Outcome::NoDefaultFound { mime, resource } => SpecOutcome::NoDefaultFound {
                mime: mime@,
                resource: resource@,
            },
            Outcome::Ready(c) => SpecOutcome::Ready(c@),
        }
    }
}

/// What the default-handler stage decided: either the pipeline ends here,
/// or the locator must try the handler's desktop entry file at the two
/// candidate paths, in order.
#[derive(Debug, Clone, PartialEq, Eq)]
pub enum DefaultDecision {
    NeedEntry { handler: String, system_path: String, user_path: String },
    Terminal(Outcome),
}

/// The mathematical image of a [`DefaultDecision`].
#[verifier::ext_equal]
pub enum SpecDefaultDecision {
    NeedEntry { handler: Seq<char>, system_path: Seq<char>, user_path: Seq<char> },
    Terminal(SpecOutcome),
}

impl View for DefaultDecision {
    type V = SpecDefaultDecision;

    open spec fn view(&self) -> SpecDefaultDecision {
        match self {
            DefaultDecision::NeedEntry { handler, system_path, user_path } => {
                SpecDefaultDecision::NeedEntry {
                    handler: handler@,
                    system_path: system_path@,
                    user_path: user_path@,
                }
            },
            DefaultDecision::Terminal(o) => SpecDefaultDecision::Terminal(o@),
        }
    }
}

/// The system-wide candidate path for a handler's desktop entry file.
pub open spec fn spec_system_path(handler: Seq<char>) -> Seq<char> {
    "/usr/share/applications/"@ + handler
}

/// The per-user candidate path for a handler's desktop entry file.
pub open spec fn spec_user_path(handler: Seq<char>, user_data_dir: Seq<char>) -> Seq<char> {
    user_data_dir + "/applications/"@ + handler
}

/// What a known handler id leads to: a handler naming a desktop entry file
/// sends the pipeline to the locator; a bare command name is ready as it
/// stands, with the raw resource as its sole argument.
pub open spec fn spec_with_handler(
    de: DesktopKind,
    mime: Seq<char>,
    resource: Seq<char>,
    user_data_dir: Seq<char>,
    handler: Seq<char>,
) -> SpecDefaultDecision {
    if has_suffix(handler, ".desktop"@) {
        SpecDefaultDecision::NeedEntry {
            handler: handler,
            system_path: spec_system_path(handler),
            user_path: spec_user_path(handler, user_data_dir),
        }
    } else {
        SpecDefaultDecision::Terminal(
            SpecOutcome::Ready(
                SpecResolved {
                    program: handler,
                    args: seq![resource],
                    mime: mime,
                    entry_path: None,
                    de: de,
                },
            ),
        )
    }
}

/// The default-handler stage: normalize the query's raw output; on an empty
/// answer consult the fallback table; invalid UTF-8 is a hard failure.
pub open spec fn spec_decide_default(
    de: DesktopKind,
    mime: Seq<char>,
    resource: Seq<char>,
    user_data_dir: Seq<char>,
    raw: Seq<u8>,
) -> SpecDefaultDecision {
    match spec_normalize(raw) {
        Ok(h) => spec_with_handler(de, mime, resource, user_data_dir, h),
        Err(QueryError::InvalidUtf8) => SpecDefaultDecision::Terminal(
            SpecOutcome::QueryFailure(QueryError::InvalidUtf8),
        ),
        Err(QueryError::Empty) => match spec_fallback(mime) {
            Some(h) => spec_with_handler(de, mime, resource, user_data_dir, h),
            None => SpecDefaultDecision::Terminal(
                SpecOutcome::NoDefaultFound { mime: mime, resource: resource },
            ),
        },
    }
}

/// Decide what the default-handler query's raw output means for `mime`.
pub fn decide_default(
    de: DesktopKind,
    mime: &String,
    resource: &String,
    user_data_dir: &String,
    raw: &[u8],
) -> (r: DefaultDecision)
    ensures
        r@ == spec_decide_default(de, mime@, resource@, user_data_dir@, raw@),
{
    let handler_opt: Option<String> = match normalize_query_output(raw) {
        Ok(h) => Some(h),
        Err(QueryError::InvalidUtf8) => {
            return DefaultDecision::Terminal(Outcome::QueryFailure(QueryError::InvalidUtf8));
        },
        Err(QueryError::Empty) => match fallback_default(mime.as_str()) {
            Some(h) => Some(h.to_owned()),
            None => None,
        },
    };
    match handler_opt {
        None => DefaultDecision::Terminal(
            Outcome::NoDefaultFound { mime: mime.clone(), resource: resource.clone() },
        ),
        Some(h) => {
            if ends_with_str(h.as_str(), ".desktop") {
                let mut system_path = String::from_str("/usr/share/applications/");
                system_path.append(h.as_str());
                let mut user_path = user_data_dir.clone();
                user_path.append("/applications/");
                user_path.append(h.as_str());
                proof {
                    assert(user_path@ =~= spec_user_path(h@, user_data_dir@));
                }
                DefaultDecision::NeedEntry { handler: h, system_path, user_path }
            } else {
                let mut args: Vec<String> = Vec::new();
                args.push(resource.clone());
                proof {
                    assert(args.deep_view() =~= seq![resource@]);
                }
                DefaultDecision::Terminal(
                    Outcome::Ready(
                        ResolvedCommand {
                            program: h,
                            args,
                            mime: mime.clone(),
                            entry_path: None,
                            de,
                        },
                    ),
                )
            }
        },
    }
}

/// What a located and parsed desktop entry resolves to: its `Exec` value is
/// tokenized and substituted; an entry without `Exec` falls back to the
/// handler id itself with the raw resource as sole argument; an `Exec`
/// value that cannot be tokenized is a malformed-exec failure.
pub open spec fn spec_resolve_entry(
    de: DesktopKind,
    mime: Seq<char>,
    resource: Seq<char>,
    handler: Seq<char>,
    path: Seq<char>,
    content: Seq<char>,
) -> SpecOutcome {
    let m = spec_parse(content);
    if m.contains_key("Exec"@) {
        let exec = m["Exec"@];
        match shell_split(exec) {
            Some(toks) => if toks.len() == 0 {
                SpecOutcome::MalformedExec(exec)
            } else {
                SpecOutcome::Ready(
                    SpecResolved {
                        program: toks.first(),
                        args: spec_substitute(toks.drop_first(), resource),
                        mime: mime,
                        entry_path: Some(path),
                        de: de,
                    },
                )
            },
            None => SpecOutcome::MalformedExec(exec),
        }
    } else {
        SpecOutcome::Ready(
            SpecResolved {
                program: handler,
                args: seq![resource],
                mime: mime,
                entry_path: Some(path),
                de: de,
            },
        )
    }
}

/// Resolve a desktop entry file's contents into a terminal outcome.
pub fn resolve_entry(
    de: DesktopKind,
    mime: &String,
    resource: &String,
    handler: &String,
    path: &String,
    content: &str,
) -> (r: Outcome)
    ensures
        r@ == spec_resolve_entry(de, mime@, resource@, handler@, path@, content@),
{
    let map = parse_desktop_file(content);
    match map.get("Exec") {
        Some(exec) => match args_from_exec_string(exec.as_str(), resource) {
            Some(pair) => Outcome::Ready(
                ResolvedCommand {
                    program: pair.0,
                    args: pair.1,
                    mime: mime.clone(),
                    entry_path: Some(path.clone()),
                    de,
                },
            ),
            None => Outcome::MalformedExec(exec.clone()),
        },
        None => {
            let mut args: Vec<String> = Vec::new();
            args.push(resource.clone());
            proof {
                assert(args.deep_view() =~= seq![resource@]);
            }
            Outcome::Ready(
                ResolvedCommand {
                    program: handler.clone(),
                    args,
                    mime: mime.clone(),
                    entry_path: Some(path.clone()),
                    de,
                },
            )
        },
    }
}

/// The locator's outcome over the two candidate entry files, in search
/// order: the first candidate that could be read wins; when neither could,
/// the failure names the last candidate tried.
pub open spec fn spec_entry_outcome(
    de: DesktopKind,
    mime: Seq<char>,
    resource: Seq<char>,
    handler: Seq<char>,
    system_path: Seq<char>,
    user_path: Seq<char>,
    system_entry: Option<Seq<char>>,
    user_entry: Option<Seq<char>>,
) -> SpecOutcome {
    match system_entry {
        Some(c) => spec_resolve_entry(de, mime, resource, handler, system_path, c),
        None => match user_entry {
            Some(c) => spec_resolve_entry(de, mime, resource, handler, user_path, c),
            None => SpecOutcome::ParseFailure { handler: handler, path: user_path },
        },
    }
}

/// Resolve with the contents of the candidate entry files, `None` standing
/// for a candidate that could not be read.
pub fn resolve_entry_outcome(
    de: DesktopKind,
    mime: &String,
    resource: &String,
    handler: &String,
    system_path: &String,
    user_path: &String,
    system_entry: &Option<String>,
    user_entry: &Option<String>,
) -> (r: Outcome)
    ensures
        r@ == spec_entry_outcome(
            de,
            mime@,
            resource@,
            handler@,
            system_path@,
            user_path@,
            match system_entry {
                Some(c) => Some(c@),
                None => None,
            },
            match user_entry {
                Some(c) => Some(c@),
                None => None,
            },
        ),
{
    match system_entry {
        Some(c) => resolve_entry(de, mime, resource, handler, system_path, c.as_str()),
        None => match user_entry {
            Some(c) => resolve_entry(de, mime, resource, handler, user_path, c.as_str()),
            None => Outcome::ParseFailure { handler: handler.clone(), path: user_path.clone() },
        },
    }
}

/// A handler id whose desktop entry file is found in neither search
/// directory ends the pipeline in `ParseFailure` — never in
/// `NoDefaultFound`, which is reserved for the default-lookup stage.
pub proof fn lemma_missing_entry_is_parse_failure(
    de: DesktopKind,
    mime: Seq<char>,
    resource: Seq<char>,
    handler: Seq<char>,
    system_path: Seq<char>,
    user_path: Seq<char>,
)
    ensures
        spec_entry_outcome(
            de,
            mime,
            resource,
            handler,
            system_path,
            user_path,
            None,
            None,
        ) == (SpecOutcome::ParseFailure { handler: handler, path: user_path }),
{
}

/// Everything external one resolution consumes: the raw standard outputs of
/// the two queries and the contents of the two candidate entry files
/// (`None` where reading failed). A field is only consulted when the
/// pipeline reaches the corresponding stage.
pub struct WorldResponses {
    pub mime_output: Vec<u8>,
    pub default_output: Vec<u8>,
    pub system_entry: Option<String>,
    pub user_entry: Option<String>,
}

/// The mathematical image of [`WorldResponses`].
#[verifier::ext_equal]
pub struct SpecWorld {
    pub mime_output: Seq<u8>,
    pub default_output: Seq<u8>,
    pub system_entry: Option<Seq<char>>,
    pub user_entry: Option<Seq<char>>,
}

impl View for WorldResponses {
    type V = SpecWorld;

    open spec fn view(&self) -> SpecWorld {
        SpecWorld {
            mime_output: self.mime_output@,
            default_output: self.default_output@,
            system_entry: match self.system_entry {
                Some(c) => Some(c@),
                None => None,
            },
            user_entry: match self.user_entry {
                Some(c) => Some(c@),
                None => None,
            },
        }
    }
}

/// One full resolution as a function of the resource, the environment
/// identity, the user data directory, and the external answers.
pub open spec fn spec_resolve(
    de: DesktopKind,
    resource: Seq<char>,
    user_data_dir: Seq<char>,
    w: SpecWorld,
) -> SpecOutcome {
    let mime_r = match url_scheme(resource) {
        Some(s) => Ok(scheme_mime(s)),
        None => spec_normalize(w.mime_output),
    };
    match mime_r {
        Err(e) => SpecOutcome::QueryFailure(e),
        Ok(mime) => match spec_decide_default(de, mime, resource, user_data_dir, w.default_output) {
            SpecDefaultDecision::Terminal(o) => o,
            SpecDefaultDecision::NeedEntry { handler, system_path, user_path } => {
                spec_entry_outcome(
                    de,
                    mime,
                    resource,
                    handler,
                    system_path,
                    user_path,
                    w.system_entry,
                    w.user_entry,
                )
            },
        },
    }
}

/// Run the whole pipeline on recorded external answers.
pub fn resolve_recorded(
    de: DesktopKind,
    resource: &String,
    user_data_dir: &String,
    w: &WorldResponses,
) -> (r: Outcome)
    ensures
        r@ == spec_resolve(de, resource@, user_data_dir@, w@),
{
    let mime = match mime_fast_path(resource) {
        Some(m) => m,
        None => match normalize_query_output(w.mime_output.as_slice()) {
            Ok(m) => m,
            Err(e) => {
                return Outcome::QueryFailure(e);
            },
        },
    };
    match decide_default(de, &mime, resource, user_data_dir, w.default_output.as_slice()) {
        DefaultDecision::Terminal(o) => o,
        DefaultDecision::NeedEntry { handler, system_path, user_path } => resolve_entry_outcome(
            de,
            &mime,
            resource,
            &handler,
            &system_path,
            &user_path,
            &w.system_entry,
            &w.user_entry,
        ),
    }
}

/// Resolution is idempotent: two runs over the same resource, identity and
/// directories, with identical external answers and identical filesystem
/// state, yield the identical outcome — in particular the identical
/// resolved command.
pub proof fn lemma_resolution_idempotent(
    de: DesktopKind,
    resource: Seq<char>,
    user_data_dir: Seq<char>,
    w1: SpecWorld,
    w2: SpecWorld,
)
    requires
        w1.mime_output == w2.mime_output,
        w1.default_output == w2.default_output,
        w1.system_entry == w2.system_entry,
        w1.user_entry == w2.user_entry,
    ensures
        spec_resolve(de, resource, user_data_dir, w1) == spec_resolve(
            de,
            resource,
            user_data_dir,
            w2,
        ),
{
    assert(w1 =~= w2);
}

/// The URL fast path short-circuits the MIME query: for a resource that
/// parses as an absolute URL, the MIME query's output is never consulted —
/// two worlds that differ only in it resolve identically — and any ready
/// command carries exactly the MIME type `x-scheme-handler/<scheme>`.
pub proof fn lemma_url_fast_path(
    de: DesktopKind,
    resource: Seq<char>,
    user_data_dir: Seq<char>,
    w1: SpecWorld,
    w2: SpecWorld,
)
    requires
        url_scheme(resource) is Some,
        w1.default_output == w2.default_output,
        w1.system_entry == w2.system_entry,
        w1.user_entry == w2.user_entry,
    ensures
        spec_resolve(de, resource, user_data_dir, w1) == spec_resolve(
            de,
            resource,
            user_data_dir,
            w2,
        ),
        spec_resolve(de, resource, user_data_dir, w1) matches SpecOutcome::Ready(c) ==> c.mime
            == scheme_mime(url_scheme(resource).unwrap()),
{
}

} // verus!

