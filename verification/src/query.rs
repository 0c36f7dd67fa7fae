//! The environment query adapter: routing the MIME-type and
//! default-application queries to the desktop environment's tool, and
//! normalizing a tool's raw standard output into a typed result.

use vstd::prelude::*;
use vstd::string::StringExecFns;
use vstd::utf8::{valid_utf8, decode_utf8};
use crate::text::{spec_trim, trim_str};

verus! {

/// The desktop environment identity, as far as query routing cares: the
/// LXQt registry is queried through its own tool, every other identity —
/// detected or not — through the generic XDG tool.
#[derive(Clone, Copy, Debug, PartialEq, Eq, Structural)]
pub enum DesktopKind {
    Lxqt,
    /// A detected desktop environment other than LXQt.
    Other,
    /// No desktop environment could be detected.
    Unknown,
}

/// Whether the LXQt-specific query backend serves this identity.
pub open spec fn uses_lxqt_backend(de: DesktopKind) -> bool {
    de == DesktopKind::Lxqt
}

/// Why a query produced no usable answer.
#[derive(Clone, Copy, Debug, PartialEq, Eq, Structural)]
pub enum QueryError {
    /// The tool's output was not well-formed UTF-8. Always a hard failure.
    InvalidUtf8,
    /// The tool's output was empty after trimming. At the default-handler
    /// stage this is the normal "nothing registered" signal.
    Empty,
}

/// Relies on core::str::from_utf8: `Ok` exactly on well-formed UTF-8,
/// decoded as vstd's `decode_utf8` describes.
#[verifier::external_body]
fn str_from_utf8(bytes: &[u8]) -> (r: Option<&str>)
    ensures
        r is Some <==> valid_utf8(bytes@),
        r matches Some(s) ==> s@ == decode_utf8(bytes@),
{
    core::str::from_utf8(bytes).ok()
}

/// What a query tool's raw standard output normalizes to: decode as UTF-8,
/// trim surrounding whitespace, and treat an empty remainder as no answer.
pub open spec fn spec_normalize(raw: Seq<u8>) -> Result<Seq<char>, QueryError> {
    if !valid_utf8(raw) {
        Err(QueryError::InvalidUtf8)
    } else if spec_trim(decode_utf8(raw)).len() == 0 {
        Err(QueryError::Empty)
    } else {
        Ok(spec_trim(decode_utf8(raw)))
    }
}

/// Normalize the raw standard output of a query tool.
pub fn normalize_query_output(raw: &[u8]) -> (r: Result<String, QueryError>)
    ensures
        r is Ok <==> spec_normalize(raw@) is Ok,
        r matches Ok(s) ==> Some(s@) == spec_normalize(raw@).ok(),
        r matches Err(e) ==> spec_normalize(raw@) == Err::<Seq<char>, QueryError>(e),
{
    match str_from_utf8(raw) {
        None => Err(QueryError::InvalidUtf8),
        Some(s) => {
            let t = trim_str(s);
            if t.unicode_len() == 0 {
                Err(QueryError::Empty)
            } else {
                Ok(t.to_owned())
            }
        },
    }
}

/// One external query invocation: a program and its arguments.
#[derive(Debug, Clone, PartialEq, Eq)]
pub struct QueryCommand {
    pub program: String,
    pub args: Vec<String>,
}

/// The command that asks the environment for the MIME type of `resource`.
pub fn mime_query_command(de: DesktopKind, resource: &String) -> (c: QueryCommand)
    ensures
        uses_lxqt_backend(de) ==> c.program@ == "qtxdg-mat"@ && c.args.deep_view() == seq![
            "mimetype"@,
            resource@,
        ],
        !uses_lxqt_backend(de) ==> c.program@ == "xdg-mime"@ && c.args.deep_view() == seq![
            "query"@,
            "filetype"@,
            resource@,
        ],
{
    match de {
        DesktopKind::Lxqt => {
            let mut args: Vec<String> = Vec::new();
            args.push(String::from_str("mimetype"));
            args.push(resource.clone());
            proof {
                assert(args.deep_view() =~= seq!["mimetype"@, resource@]);
            }
            QueryCommand { program: String::from_str("qtxdg-mat"), args }
        },
        _ => {
            let mut args: Vec<String> = Vec::new();
            args.push(String::from_str("query"));
            args.push(String::from_str("filetype"));
            args.push(resource.clone());
            proof {
                assert(args.deep_view() =~= seq!["query"@, "filetype"@, resource@]);
            }
            QueryCommand { program: String::from_str("xdg-mime"), args }
        },
    }
}

/// The command that asks the environment for the default application
/// registered for `mime`.
pub fn default_query_command(de: DesktopKind, mime: &String) -> (c: QueryCommand)
    ensures
        uses_lxqt_backend(de) ==> c.program@ == "qtxdg-mat"@ && c.args.deep_view() == seq![
            "defapp"@,
            mime@,
        ],
        !uses_lxqt_backend(de) ==> c.program@ == "xdg-mime"@ && c.args.deep_view() == seq![
            "query"@,
            "default"@,
            mime@,
        ],
{
    match de {
        DesktopKind::Lxqt => {
            let mut args: Vec<String> = Vec::new();
            args.push(String::from_str("defapp"));
            args.push(mime.clone());
            proof {
                assert(args.deep_view() =~= seq!["defapp"@, mime@]);
            }
            QueryCommand { program: String::from_str("qtxdg-mat"), args }
        },
        _ => {
            let mut args: Vec<String> = Vec::new();
            args.push(String::from_str("query"));
            args.push(String::from_str("default"));
            args.push(mime.clone());
            proof {
                assert(args.deep_view() =~= seq!["query"@, "default"@, mime@]);
            }
            QueryCommand { program: String::from_str("xdg-mime"), args }
        },
    }
}

} // verus!
