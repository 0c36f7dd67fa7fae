//! Splitting a desktop entry's `Exec` value into an executable and argument
//! list, with shell-style word splitting and single-resource field-code
//! substitution.

use vstd::prelude::*;
use crate::text::str_eq;

verus! {

/// What shell-style word splitting yields on this text: `None` on input
/// that cannot be tokenized (an unterminated quote or escape, or a nul
/// byte), otherwise the sequence of word tokens.
pub uninterp spec fn shell_split(s: Seq<char>) -> Option<Seq<Seq<char>>>;

/// Relies on shlex::split: POSIX-like shell word splitting, `None` exactly
/// on erroneous input; the result depends on the characters alone.
#[verifier::external_body]
fn shlex_split(s: &str) -> (r: Option<Vec<String>>)
    ensures
        r is Some <==> shell_split(s@) is Some,
        r matches Some(v) ==> Some(v.deep_view()) == shell_split(s@),
{
    shlex::split(s)
}

/// The field codes that stand for the single resource being opened. Tokens
/// equal to one of these are replaced by the resource reference itself;
/// every other field code passes through as a literal token.
pub open spec fn is_field_code(t: Seq<char>) -> bool {
    t == "%U"@ || t == "%u"@ || t == "%f"@
}

/// `toks` with every single-resource field code replaced by `res`, verbatim.
pub open spec fn spec_substitute(toks: Seq<Seq<char>>, res: Seq<char>) -> Seq<Seq<char>> {
    toks.map_values(|t: Seq<char>| if is_field_code(t) { res } else { t })
}

/// Replace each token that is exactly `%U`, `%u` or `%f` by the resource
/// reference — the raw value, not a quoted or escaped form of it.
pub fn substitute_field_codes(tokens: &Vec<String>, resource: &String) -> (r: Vec<String>)
    ensures
        r.deep_view() == spec_substitute(tokens.deep_view(), resource@),
{
    let mut out: Vec<String> = Vec::new();
    let mut i: usize = 0;
    while i < tokens.len()
        invariant
            i <= tokens.len(),
            out.deep_view() == spec_substitute(tokens.deep_view().take(i as int), resource@),
        decreases tokens.len() - i,
    {
        let t = &tokens[i];
        let ghost prev = out.deep_view();
        let ghost prev_vec = out@;
        let is_code = str_eq(t.as_str(), "%U") || str_eq(t.as_str(), "%u") || str_eq(
            t.as_str(),
            "%f",
        );
        let new_tok = if is_code {
            resource.clone()
        } else {
            t.clone()
        };
        out.push(new_tok);
        proof {
            let dv = tokens.deep_view();
            assert(dv[i as int] == tokens@[i as int]@);
            assert(is_code == is_field_code(dv[i as int]));
            assert(prev.len() == prev_vec.len());
            assert(dv.take(i as int).len() == i as int);
            assert(prev_vec.len() == i as int);
            assert(out@.len() == prev_vec.len() + 1);
            assert(out.deep_view().len() == i + 1);
            assert forall|k: int| 0 <= k <= i as int implies out.deep_view()[k] == spec_substitute(
                dv.take(i as int + 1),
                resource@,
            )[k] by {
                assert(dv.take(i as int + 1)[k] == dv[k]);
                if k < i as int {
                    assert(out.deep_view()[k] == out@[k]@);
                    assert(out@[k] == prev_vec[k]);
                    assert(out.deep_view()[k] == prev[k]);
                    assert(prev[k] == spec_substitute(dv.take(i as int), resource@)[k]);
                    assert(dv.take(i as int)[k] == dv[k]);
                } else {
                    assert(out.deep_view()[k] == out@[k]@);
                    assert(out@[k] == new_tok);
                }
            }
            assert(out.deep_view() =~= spec_substitute(dv.take(i as int + 1), resource@));
        }
        i += 1;
    }
    proof {
        assert(tokens.deep_view().take(tokens.len() as int) =~= tokens.deep_view());
    }
    out
}

/// Split an `Exec` value into the executable (its first token) and the
/// argument list (the remaining tokens, with single-resource field codes
/// replaced by `arg`). `None` when tokenization fails or yields no tokens.
pub fn args_from_exec_string(exec: &str, arg: &String) -> (r: Option<(String, Vec<String>)>)
    ensures
        r is Some <==> (shell_split(exec@) matches Some(toks) && toks.len() > 0),
        r matches Some(p) ==> {
            let toks = shell_split(exec@).unwrap();
            p.0@ == toks.first() && p.1.deep_view() == spec_substitute(toks.drop_first(), arg@)
        },
{
    let mut tokens = match shlex_split(exec) {
        Some(t) => t,
        None => {
            return None;
        },
    };
    if tokens.len() == 0 {
        return None;
    }
    let ghost all = tokens.deep_view();
    let exe = tokens.remove(0);
    proof {
        assert(tokens.deep_view() =~= all.drop_first());
    }
    let args = substitute_field_codes(&tokens, arg);
    Some((exe, args))
}

} // verus!
