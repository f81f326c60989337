//! Wordlist-driven fuzzing: placeholder substitution into CLI parameters,
//! per-word parameter building, and the per-iteration report records whose
//! indices and isolation the driver guarantees.

use vstd::prelude::*;

use crate::chars::replace_all;
use crate::params::{spec_collect_params, spec_merge_file, ParamMap, ParamTokenError};

verus! {

/// The CLI parameter tokens with every occurrence of the placeholder
/// replaced by the current word — before any `KEY=VALUE` splitting, so the
/// placeholder may sit in the key as well as the value.
pub open spec fn spec_substituted_tokens(
    params: Seq<Seq<char>>,
    placeholder: Seq<char>,
    word: Seq<char>,
) -> Seq<Seq<char>> {
    params.map_values(|kv: Seq<char>| replace_all(kv, placeholder, word))
}

/// Substitute the word for the placeholder in every CLI parameter token.
pub fn substitute_params(params: &Vec<String>, placeholder: &str, word: &str) -> (r: Vec<String>)
    ensures
        r@.map_values(|t: String| t@) =~= spec_substituted_tokens(
            params@.map_values(|t: String| t@),
            placeholder@,
            word@,
        ),
{
    let ghost toks = params@.map_values(|t: String| t@);
    let n = params.len();
    let mut r: Vec<String> = Vec::new();
    let mut i: usize = 0;
    while i < n
        invariant
            0 <= i <= n,
            n == params.len(),
            toks == params@.map_values(|t: String| t@),
            r@.map_values(|t: String| t@) =~= toks.subrange(0, i as int).map_values(
                |kv: Seq<char>| replace_all(kv, placeholder@, word@),
            ),
        decreases n - i,
    {
        let s = crate::chars::replace_literal(params[i].as_str(), placeholder, word);
        let ghost r_before = r@.map_values(|t: String| t@);
        let ghost s_model = s@;
        r.push(s);
        proof {
            assert(r@.map_values(|t: String| t@) =~= r_before.push(s_model));
            assert(toks.subrange(0, i + 1) =~= toks.subrange(0, i as int).push(toks[i as int]));
            assert(toks.subrange(0, i + 1).map_values(
                |kv: Seq<char>| replace_all(kv, placeholder@, word@),
            ) =~= toks.subrange(0, i as int).map_values(
                |kv: Seq<char>| replace_all(kv, placeholder@, word@),
            ).push(replace_all(toks[i as int], placeholder@, word@)));
        }
        i = i + 1;
    }
    proof {
        assert(toks.subrange(0, n as int) =~= toks);
    }
    r
}

/// Build the parameter map for one fuzzing iteration: substitute the word
/// into the CLI tokens, collect them as `KEY=VALUE` pairs, then merge the
/// parameter-file entries — which are never substituted — with CLI keys
/// winning.
pub fn build_fuzz_params(
    params: &Vec<String>,
    placeholder: &str,
    word: &str,
    file_entries: &Vec<(String, String)>,
) -> (r: Result<ParamMap, (usize, ParamTokenError)>)
    ensures
        ({
            let subbed = spec_substituted_tokens(
                params@.map_values(|t: String| t@),
                placeholder@,
                word@,
            );
            match r {
                Ok(m) => spec_collect_params(subbed) matches Ok(cli) && m@ == spec_merge_file(
                    cli,
                    file_entries@.map_values(|e: (String, String)| (e.0@, e.1@)),
                ),
                Err(e) => spec_collect_params(subbed) == Err::<Seq<(Seq<char>, Seq<char>)>, _>(
                    (e.0 as int, e.1),
                ),
            }
        }),
{
    let subbed = substitute_params(params, placeholder, word);
    let mut map = match crate::params::collect_params(&subbed) {
        Ok(m) => m,
        Err(e) => {
            return Err(e);
        },
    };
    map.merge_file_entries(file_entries);
    Ok(map)
}

/// One fuzzing iteration's report: its 0-based index, the total number of
/// requests, the word used, and the outcome — the summary text on success,
/// the error text on failure.
#[derive(Debug, Clone)]
pub struct FuzzRecord {
    pub index: usize,
    pub total: usize,
    pub word: String,
    pub ok: bool,
    pub detail: String,
}

/// Assemble the per-iteration report. Every word yields exactly one record,
/// failure or not: record `i` carries index `i`, the total count, word `i`,
/// and outcome `i`, so one iteration's failure never hides or renumbers
/// another's.
pub fn fuzz_report(words: &Vec<String>, outcomes: &Vec<Result<String, String>>) -> (r: Vec<
    FuzzRecord,
>)
    requires
        words@.len() == outcomes@.len(),
    ensures
        r@.len() == words@.len(),
        forall|i: int|
            0 <= i < r@.len() ==> {
                &&& (#[trigger] r@[i]).index == i
                &&& r@[i].total == words@.len()
                &&& r@[i].word@ == words@[i]@
                &&& r@[i].ok == (outcomes@[i] is Ok)
                &&& r@[i].detail@ == match outcomes@[i] {
                    Ok(s) => s@,
                    Err(s) => s@,
                }
            },
{
    let n = words.len();
    let mut r: Vec<FuzzRecord> = Vec::new();
    let mut i: usize = 0;
    while i < n
        invariant
            0 <= i <= n,
            n == words.len(),
            n == outcomes.len(),
            r@.len() == i,
            forall|k: int|
                0 <= k < i ==> {
                    &&& (#[trigger] r@[k]).index == k
                    &&& r@[k].total == n
                    &&& r@[k].word@ == words@[k]@
                    &&& r@[k].ok == (outcomes@[k] is Ok)
                    &&& r@[k].detail@ == match outcomes@[k] {
                        Ok(s) => s@,
                        Err(s) => s@,
                    }
                },
        decreases n - i,
    {
        let (ok, detail) = match &outcomes[i] {
            Ok(s) => (true, s.clone()),
            Err(s) => (false, s.clone()),
        };
        let rec = FuzzRecord { index: i, total: n, word: words[i].clone(), ok, detail };
        r.push(rec);
        i = i + 1;
    }
    r
}

} // verus!
