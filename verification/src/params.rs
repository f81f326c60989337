//! Parameter collection: `KEY=VALUE` token parsing, the ordered parameter
//! map built from CLI flags, and merging of parameter-file entries, where
//! CLI-provided keys always win.

use vstd::prelude::*;

use crate::chars::{find_char, trimmed};

verus! {

/// Lookup in an association list: the value at the first matching key.
pub open spec fn assoc_get(s: Seq<(Seq<char>, Seq<char>)>, k: Seq<char>) -> Option<Seq<char>>
    decreases s.len(),
{
    if s.len() == 0 {
        None
    } else if s[0].0 == k {
        Some(s[0].1)
    } else {
        assoc_get(s.drop_first(), k)
    }
}

/// The predicate selecting entries whose key differs from `k`.
pub open spec fn key_ne(k: Seq<char>) -> spec_fn((Seq<char>, Seq<char>)) -> bool {
    |e: (Seq<char>, Seq<char>)| e.0 != k
}

/// Insertion with "last occurrence wins": any entry under the key is removed
/// and the new pair goes to the back.
pub open spec fn assoc_put(
    s: Seq<(Seq<char>, Seq<char>)>,
    k: Seq<char>,
    v: Seq<char>,
) -> Seq<(Seq<char>, Seq<char>)> {
    s.filter(key_ne(k)).push((k, v))
}

/// How a `KEY=VALUE` token fails to parse.
#[derive(Debug, Clone, Copy, PartialEq, Eq, Structural)]
pub enum ParamTokenError {
    /// The token holds no `=` at all.
    MissingEquals,
    /// The key left of the first `=` is empty after trimming.
    EmptyKey,
}

/// What splitting a `KEY=VALUE` token yields: the trimmed key and trimmed
/// value around the first `=`, or the reason it is rejected.
pub open spec fn spec_split_param(kv: Seq<char>) -> Result<(Seq<char>, Seq<char>), ParamTokenError> {
    match find_char(kv, '=') {
        None => Err(ParamTokenError::MissingEquals),
        Some(i) => {
            let k = trimmed(kv.subrange(0, i));
            let v = trimmed(kv.subrange(i + 1, kv.len() as int));
            if k.len() == 0 {
                Err(ParamTokenError::EmptyKey)
            } else {
                Ok((k, v))
            }
        },
    }
}

/// The map obtained from a sequence of `KEY=VALUE` tokens, inserted in
/// order with the last occurrence of a duplicate key winning; the first
/// malformed token aborts the collection with its index and reason.
pub open spec fn spec_collect_params(tokens: Seq<Seq<char>>) -> Result<
    Seq<(Seq<char>, Seq<char>)>,
    (int, ParamTokenError),
>
    decreases tokens.len(),
{
    if tokens.len() == 0 {
        Ok(Seq::empty())
    } else {
        match spec_collect_params(tokens.drop_last()) {
            Err(e) => Err(e),
            Ok(m) => match spec_split_param(tokens.last()) {
                Err(k) => Err((tokens.len() - 1, k)),
                Ok(kv) => Ok(assoc_put(m, kv.0, kv.1)),
            },
        }
    }
}

/// Entries merged from a parameter file into an existing map: file entries
/// are taken in order, and one is inserted only where its key is not already
/// present.
pub open spec fn spec_merge_file(
    m: Seq<(Seq<char>, Seq<char>)>,
    es: Seq<(Seq<char>, Seq<char>)>,
) -> Seq<(Seq<char>, Seq<char>)>
    decreases es.len(),
{
    if es.len() == 0 {
        m
    } else {
        let m2 = spec_merge_file(m, es.drop_last());
        if assoc_get(m2, es.last().0) is Some {
            m2
        } else {
            m2.push(es.last())
        }
    }
}

/// An ordered mapping from parameter name to raw string value, with unique
/// keys.
#[derive(Debug)]
pub struct ParamMap {
    pub entries: Vec<(String, String)>,
}

impl Clone for ParamMap {
    /// An exact copy: the clone's entries are the same pairs.
    fn clone(&self) -> (r: Self)
        ensures
            r@ == self@,
    {
        let n = self.entries.len();
        let mut entries: Vec<(String, String)> = Vec::new();
        let mut i: usize = 0;
        while i < n
            invariant
                0 <= i <= n,
                n == self.entries.len(),
                entries@.map_values(|e: (String, String)| (e.0@, e.1@)) =~= self@.subrange(
                    0,
                    i as int,
                ),
            decreases n - i,
        {
            let pair = (self.entries[i].0.clone(), self.entries[i].1.clone());
            entries.push(pair);
            proof {
                assert(self@.subrange(0, i + 1) =~= self@.subrange(0, i as int).push(
                    self@[i as int],
                ));
            }
            i = i + 1;
        }
        proof {
            assert(self@.subrange(0, n as int) =~= self@);
        }
        let r = ParamMap { entries };
        proof {
            assert(r@ =~= self@);
        }
        r
    }
}

impl View for ParamMap {
    type V = Seq<(Seq<char>, Seq<char>)>;

    open spec fn view(&self) -> Seq<(Seq<char>, Seq<char>)> {
        self.entries@.map_values(|e: (String, String)| (e.0@, e.1@))
    }
}

proof fn lemma_assoc_get_at(s: Seq<(Seq<char>, Seq<char>)>, k: Seq<char>, i: int)
    requires
        0 <= i < s.len(),
        s[i].0 == k,
        forall|j: int| 0 <= j < i ==> s[j].0 != k,
    ensures
        assoc_get(s, k) == Some(s[i].1),
    decreases i,
{
    if i > 0 {
        lemma_assoc_get_at(s.drop_first(), k, i - 1);
    }
}

proof fn lemma_assoc_get_push(s: Seq<(Seq<char>, Seq<char>)>, e: (Seq<char>, Seq<char>), k: Seq<char>)
    ensures
        assoc_get(s.push(e), k) == match assoc_get(s, k) {
            Some(v) => Some(v),
            None => if e.0 == k {
                Some(e.1)
            } else {
                None
            },
        },
    decreases s.len(),
{
    if s.len() == 0 {
        assert(s.push(e)[0] == e);
        assert(s.push(e).drop_first() =~= Seq::<(Seq<char>, Seq<char>)>::empty());
    } else {
        assert(s.push(e)[0] == s[0]);
        assert(s.push(e).drop_first() =~= s.drop_first().push(e));
        lemma_assoc_get_push(s.drop_first(), e, k);
    }
}

proof fn lemma_filter_all_kept(s: Seq<(Seq<char>, Seq<char>)>, k: Seq<char>)
    requires
        forall|j: int| 0 <= j < s.len() ==> s[j].0 != k,
    ensures
        s.filter(key_ne(k)) =~= s,
    decreases s.len(),
{
    reveal_with_fuel(Seq::filter, 2);
    if s.len() > 0 {
        lemma_filter_all_kept(s.drop_last(), k);
        assert(s.drop_last().filter(key_ne(k)).push(s.last()) =~= s);
    }
}

proof fn lemma_assoc_get_none(s: Seq<(Seq<char>, Seq<char>)>, k: Seq<char>)
    requires
        forall|j: int| 0 <= j < s.len() ==> s[j].0 != k,
    ensures
        assoc_get(s, k) is None,
    decreases s.len(),
{
    if s.len() > 0 {
        lemma_assoc_get_none(s.drop_first(), k);
    }
}

impl ParamMap {
    /// The empty map.
    pub fn new() -> (r: ParamMap)
        ensures
            r@ =~= Seq::<(Seq<char>, Seq<char>)>::empty(),
    {
        ParamMap { entries: Vec::new() }
    }

    /// The number of entries.
    pub fn len(&self) -> (r: usize)
        ensures
            r == self@.len(),
    {
        self.entries.len()
    }

    /// The value stored under `key`, if any.
    pub fn get(&self, key: &str) -> (r: Option<&String>)
        ensures
            match r {
                Some(v) => assoc_get(self@, key@) == Some(v@),
                None => assoc_get(self@, key@) is None,
            },
    {
        let n = self.entries.len();
        let mut i: usize = 0;
        while i < n
            invariant
                0 <= i <= n,
                n == self.entries.len(),
                forall|j: int| 0 <= j < i ==> self@[j].0 != key@,
            decreases n - i,
        {
            if crate::schema::str_eq(self.entries[i].0.as_str(), key) {
                proof {
                    lemma_assoc_get_at(self@, key@, i as int);
                }
                return Some(&self.entries[i].1);
            }
            i = i + 1;
        }
        proof {
            lemma_assoc_get_none(self@, key@);
        }
        None
    }

    /// Whether `key` is present.
    pub fn contains_key(&self, key: &str) -> (r: bool)
        ensures
            r == (assoc_get(self@, key@) is Some),
    {
        match self.get(key) {
            Some(_) => true,
            None => false,
        }
    }

    /// Insert `key -> value`; an existing entry under the key is removed, so
    /// the last insertion wins.
    pub fn insert(&mut self, key: String, value: String)
        ensures
            final(self)@ =~= assoc_put(old(self)@, key@, value@),
    {
        let n = self.entries.len();
        let mut kept: Vec<(String, String)> = Vec::new();
        let mut i: usize = 0;
        while i < n
            invariant
                0 <= i <= n,
                n == self.entries.len(),
                kept@.map_values(|e: (String, String)| (e.0@, e.1@)) =~= self@.subrange(
                    0,
                    i as int,
                ).filter(key_ne(key@)),
            decreases n - i,
        {
            let ghost pre = self@.subrange(0, i as int);
            proof {
                assert(self@.subrange(0, i + 1) =~= pre.push(self@[i as int]));
                reveal_with_fuel(Seq::filter, 2);
                assert(pre.push(self@[i as int]).drop_last() =~= pre);
            }
            if !crate::schema::str_eq(self.entries[i].0.as_str(), key.as_str()) {
                let pair = (self.entries[i].0.clone(), self.entries[i].1.clone());
                kept.push(pair);
            }
            i = i + 1;
        }
        proof {
            assert(self@.subrange(0, n as int) =~= self@);
        }
        kept.push((key, value));
        self.entries = kept;
    }

    /// Remove `key` and hand back its value, if it was present; a map
    /// without the key is left unchanged.
    pub fn remove(&mut self, key: &str) -> (r: Option<String>)
        ensures
            final(self)@ == old(self)@.filter(key_ne(key@)),
            match r {
                Some(v) => assoc_get(old(self)@, key@) == Some(v@),
                None => assoc_get(old(self)@, key@) is None && final(self)@ == old(self)@,
            },
    {
        let n = self.entries.len();
        let mut kept: Vec<(String, String)> = Vec::new();
        let mut found: Option<String> = None;
        let mut i: usize = 0;
        while i < n
            invariant
                0 <= i <= n,
                n == self.entries.len(),
                kept@.map_values(|e: (String, String)| (e.0@, e.1@)) =~= self@.subrange(
                    0,
                    i as int,
                ).filter(key_ne(key@)),
                match found {
                    Some(v) => assoc_get(self@.subrange(0, i as int), key@) == Some(v@),
                    None => forall|j: int| 0 <= j < i ==> self@[j].0 != key@,
                },
            decreases n - i,
        {
            let ghost pre = self@.subrange(0, i as int);
            proof {
                assert(self@.subrange(0, i + 1) =~= pre.push(self@[i as int]));
                reveal_with_fuel(Seq::filter, 2);
                assert(pre.push(self@[i as int]).drop_last() =~= pre);
                if found is None {
                    assert(forall|j: int| 0 <= j < pre.len() ==> pre[j].0 != key@);
                    lemma_assoc_get_none(pre, key@);
                }
                lemma_assoc_get_push(pre, self@[i as int], key@);
            }
            if crate::schema::str_eq(self.entries[i].0.as_str(), key) {
                if found.is_none() {
                    found = Some(self.entries[i].1.clone());
                }
            } else {
                let pair = (self.entries[i].0.clone(), self.entries[i].1.clone());
                kept.push(pair);
            }
            i = i + 1;
        }
        proof {
            assert(self@.subrange(0, n as int) =~= self@);
            if found is None {
                lemma_assoc_get_none(self@, key@);
                lemma_filter_all_kept(self@, key@);
            }
        }
        self.entries = kept;
        found
    }

    /// Merge parameter-file entries: insert each, in order, only where the
    /// key is not already present, so existing (CLI-provided) keys win.
    pub fn merge_file_entries(&mut self, entries: &Vec<(String, String)>)
        ensures
            final(self)@ =~= spec_merge_file(
                old(self)@,
                entries@.map_values(|e: (String, String)| (e.0@, e.1@)),
            ),
    {
        let ghost es = entries@.map_values(|e: (String, String)| (e.0@, e.1@));
        let n = entries.len();
        let mut i: usize = 0;
        while i < n
            invariant
                0 <= i <= n,
                n == entries.len(),
                es == entries@.map_values(|e: (String, String)| (e.0@, e.1@)),
                self@ =~= spec_merge_file(old(self)@, es.subrange(0, i as int)),
            decreases n - i,
        {
            let ghost pre = es.subrange(0, i as int);
            proof {
                assert(es.subrange(0, i + 1).drop_last() =~= pre);
                assert(es.subrange(0, i + 1).last() == es[i as int]);
            }
            if !self.contains_key(entries[i].0.as_str()) {
                let pair = (entries[i].0.clone(), entries[i].1.clone());
                self.entries.push(pair);
            }
            i = i + 1;
            proof {
                assert(self@ =~= spec_merge_file(old(self)@, es.subrange(0, i as int)));
            }
        }
        proof {
            assert(es.subrange(0, n as int) =~= es);
        }
    }
}

/// The root object's entries of a JSON document, in the parser's order,
/// each value rendered as text — string values verbatim, any other value in
/// its JSON form; nothing when the document does not parse or its root is
/// not an object. A function of the text alone.
pub uninterp spec fn json_object_entries_of(s: Seq<char>) -> Option<Seq<(Seq<char>, Seq<char>)>>;

/// Relies on `serde_json::from_str::<serde_json::Value>` and
/// `serde_json::Value::to_string`: the root object's entries of a JSON
/// document, string values taken verbatim and other values rendered as
/// JSON text; `None` where the text does not parse or the root is not an
/// object.
#[verifier::external_body]
fn parse_object_entries_json(content: &str) -> (r: Option<Vec<(String, String)>>)
    ensures
        match r {
            Some(v) => json_object_entries_of(content@) == Some(
                v@.map_values(|e: (String, String)| (e.0@, e.1@)),
            ),
            None => json_object_entries_of(content@) is None,
        },
{
    let value: serde_json::Value = match serde_json::from_str(content) {
        Ok(v) => v,
        Err(_) => return None,
    };
    match value {
        serde_json::Value::Object(m) => Some(m.into_iter().map(|(k, v)| match v {
            serde_json::Value::String(s) => (k, s),
            other => (k, other.to_string()),
        }).collect()),
        _ => None,
    }
}

/// The root object's entries of a YAML document, read the same way as
/// `json_object_entries_of`; a function of the text alone.
pub uninterp spec fn yaml_object_entries_of(s: Seq<char>) -> Option<Seq<(Seq<char>, Seq<char>)>>;

/// Relies on `serde_yaml::from_str::<serde_json::Value>` and
/// `serde_json::Value::to_string`: the root object's entries of a YAML
/// document, string values taken verbatim and other values rendered as
/// JSON text; `None` where the text does not parse, the root is not a
/// mapping, or the mapping does not convert to a JSON object.
#[verifier::external_body]
fn parse_object_entries_yaml(content: &str) -> (r: Option<Vec<(String, String)>>)
    ensures
        match r {
            Some(v) => yaml_object_entries_of(content@) == Some(
                v@.map_values(|e: (String, String)| (e.0@, e.1@)),
            ),
            None => yaml_object_entries_of(content@) is None,
        },
{
    let value: serde_json::Value = match serde_yaml::from_str(content) {
        Ok(v) => v,
        Err(_) => return None,
    };
    match value {
        serde_json::Value::Object(m) => Some(m.into_iter().map(|(k, v)| match v {
            serde_json::Value::String(s) => (k, s),
            other => (k, other.to_string()),
        }).collect()),
        _ => None,
    }
}

/// Why a parameter file's content is rejected.
#[derive(Debug, Clone, Copy, PartialEq, Eq, Structural)]
pub enum ParamFileError {
    /// The content does not parse, or its root is not an object.
    NotAnObjectDocument,
}

impl ParamFileError {
    /// A human-readable description of the rejection.
    pub fn message(&self) -> (r: &'static str)
        ensures
            r@ == "failed to parse param file (expected an object document)"@,
    {
        "failed to parse param file (expected an object document)"
    }
}

/// Whether the path names a YAML parameter file: it ends in `.yaml` or
/// `.yml`, ignoring ASCII case.
pub open spec fn spec_is_yaml_path(path: Seq<char>) -> bool {
    ||| (path.len() >= 5 && crate::chars::eq_ignore_case_seq(
        path.subrange(path.len() - 5, path.len() as int),
        seq!['.', 'y', 'a', 'm', 'l'],
    ))
    ||| (path.len() >= 4 && crate::chars::eq_ignore_case_seq(
        path.subrange(path.len() - 4, path.len() as int),
        seq!['.', 'y', 'm', 'l'],
    ))
}

/// Decide from the file name whether a parameter file is read as YAML; any
/// other extension is read as JSON.
pub fn param_file_is_yaml(path: &str) -> (r: bool)
    ensures
        r == spec_is_yaml_path(path@),
{
    proof {
        reveal_strlit(".yaml");
        reveal_strlit(".yml");
        assert(".yaml"@ =~= seq!['.', 'y', 'a', 'm', 'l']);
        assert(".yml"@ =~= seq!['.', 'y', 'm', 'l']);
    }
    let n = path.unicode_len();
    let mut r = false;
    if n >= 5 {
        let tail = path.substring_char(n - 5, n);
        if crate::chars::eq_ignore_case(tail, ".yaml") {
            r = true;
        }
    }
    if !r && n >= 4 {
        let tail = path.substring_char(n - 4, n);
        if crate::chars::eq_ignore_case(tail, ".yml") {
            r = true;
        }
    }
    r
}

/// What merging a parameter file's content yields, given how the file was
/// read.
pub open spec fn spec_file_entries(content: Seq<char>, as_yaml: bool) -> Option<
    Seq<(Seq<char>, Seq<char>)>,
> {
    if as_yaml {
        yaml_object_entries_of(content)
    } else {
        json_object_entries_of(content)
    }
}

/// The entries of a parameter file's content, read as YAML or JSON per
/// `as_yaml`; the root must be an object.
pub fn param_file_entries(content: &str, as_yaml: bool) -> (r: Result<
    Vec<(String, String)>,
    ParamFileError,
>)
    ensures
        match r {
            Ok(es) => spec_file_entries(content@, as_yaml) == Some(
                es@.map_values(|e: (String, String)| (e.0@, e.1@)),
            ),
            Err(e) => spec_file_entries(content@, as_yaml) is None && e
                == ParamFileError::NotAnObjectDocument,
        },
{
    let entries = if as_yaml {
        parse_object_entries_yaml(content)
    } else {
        parse_object_entries_json(content)
    };
    match entries {
        Some(es) => Ok(es),
        None => Err(ParamFileError::NotAnObjectDocument),
    }
}

/// Merge a parameter file's content into the map: the content is read as
/// YAML or JSON per `as_yaml`, its root must be an object, and each entry
/// is inserted only where the key is not already present — keys already in
/// the map always win. On rejection the map is unchanged.
pub fn merge_param_file_content(map: &mut ParamMap, content: &str, as_yaml: bool) -> (r: Result<
    (),
    ParamFileError,
>)
    ensures
        match r {
            Ok(_) => spec_file_entries(content@, as_yaml) matches Some(es) && final(map)@
                == spec_merge_file(old(map)@, es),
            Err(e) => spec_file_entries(content@, as_yaml) is None && final(map)@ == old(map)@
                && e == ParamFileError::NotAnObjectDocument,
        },
{
    let entries = if as_yaml {
        parse_object_entries_yaml(content)
    } else {
        parse_object_entries_json(content)
    };
    match entries {
        Some(es) => {
            map.merge_file_entries(&es);
            Ok(())
        },
        None => Err(ParamFileError::NotAnObjectDocument),
    }
}

/// Split one `KEY=VALUE` token on its first `=`, trimming key and value.
pub fn split_param_token(kv: &str) -> (r: Result<(String, String), ParamTokenError>)
    ensures
        match r {
            Ok(p) => spec_split_param(kv@) == Ok::<_, ParamTokenError>((p.0@, p.1@)),
            Err(e) => spec_split_param(kv@) == Err::<(Seq<char>, Seq<char>), _>(e),
        },
{
    let n = kv.unicode_len();
    let mut i: usize = 0;
    while i < n && kv.get_char(i) != '='
        invariant
            0 <= i <= n,
            n == kv@.len(),
            forall|j: int| 0 <= j < i ==> kv@[j] != '=',
        decreases n - i,
    {
        i = i + 1;
    }
    if i == n {
        proof {
            crate::chars::lemma_find_char_none(kv@, '=');
        }
        return Err(ParamTokenError::MissingEquals);
    }
    proof {
        crate::chars::lemma_find_char_at(kv@, '=', i as int);
    }
    let key_part = kv.substring_char(0, i);
    let val_part = kv.substring_char(i + 1, n);
    let key = crate::chars::trim_str(key_part);
    let value = crate::chars::trim_str(val_part);
    if key.as_str().unicode_len() == 0 {
        return Err(ParamTokenError::EmptyKey);
    }
    Ok((key, value))
}

/// Collect CLI `KEY=VALUE` tokens into a parameter map, in order, the last
/// occurrence of a duplicate key winning; the first malformed token aborts
/// with its index and reason.
pub fn collect_params(tokens: &Vec<String>) -> (r: Result<ParamMap, (usize, ParamTokenError)>)
    ensures
        ({
            let toks = tokens@.map_values(|t: String| t@);
            match r {
                Ok(m) => spec_collect_params(toks) == Ok::<_, (int, ParamTokenError)>(m@),
                Err(e) => spec_collect_params(toks) == Err::<Seq<(Seq<char>, Seq<char>)>, _>(
                    (e.0 as int, e.1),
                ),
            }
        }),
{
    let ghost toks = tokens@.map_values(|t: String| t@);
    let n = tokens.len();
    let mut map = ParamMap::new();
    let mut i: usize = 0;
    while i < n
        invariant
            0 <= i <= n,
            n == tokens.len(),
            toks == tokens@.map_values(|t: String| t@),
            spec_collect_params(toks.subrange(0, i as int)) == Ok::<_, (int, ParamTokenError)>(
                map@,
            ),
        decreases n - i,
    {
        let ghost pre = toks.subrange(0, i as int);
        proof {
            assert(toks.subrange(0, i + 1).drop_last() =~= pre);
            assert(toks.subrange(0, i + 1).last() == toks[i as int]);
        }
        match split_param_token(tokens[i].as_str()) {
            Ok(p) => {
                map.insert(p.0, p.1);
            },
            Err(e) => {
                proof {
                    assert(spec_collect_params(toks.subrange(0, i + 1)) == Err::<
                        Seq<(Seq<char>, Seq<char>)>,
                        _,
                    >((i as int, e)));
                    lemma_collect_err_extends(toks, i + 1, (i as int, e));
                }
                return Err((i, e));
            },
        }
        i = i + 1;
    }
    proof {
        assert(toks.subrange(0, n as int) =~= toks);
    }
    Ok(map)
}

/// Law: file-merge precedence. Merging parameter-file entries never changes
/// a key that is already present — CLI-provided keys always win — and a key
/// that is absent takes the file's first value for it, if the file has one.
pub proof fn lemma_file_merge_precedence(
    m: Seq<(Seq<char>, Seq<char>)>,
    es: Seq<(Seq<char>, Seq<char>)>,
    k: Seq<char>,
)
    ensures
        assoc_get(m, k) is Some ==> assoc_get(spec_merge_file(m, es), k) == assoc_get(m, k),
        assoc_get(m, k) is None ==> assoc_get(spec_merge_file(m, es), k) == assoc_get(es, k),
    decreases es.len(),
{
    if es.len() == 0 {
    } else {
        let pre = es.drop_last();
        let e = es.last();
        lemma_file_merge_precedence(m, pre, k);
        let m2 = spec_merge_file(m, pre);
        lemma_assoc_get_push(m2, e, k);
        assert(pre.push(e) =~= es);
        lemma_assoc_get_push(pre, e, k);
    }
}

proof fn lemma_collect_err_extends(toks: Seq<Seq<char>>, i: int, e: (int, ParamTokenError))
    requires
        0 <= i <= toks.len(),
        spec_collect_params(toks.subrange(0, i)) == Err::<Seq<(Seq<char>, Seq<char>)>, _>(e),
    ensures
        spec_collect_params(toks) == Err::<Seq<(Seq<char>, Seq<char>)>, _>(e),
    decreases toks.len() - i,
{
    if i < toks.len() {
        assert(toks.subrange(0, i + 1).drop_last() =~= toks.subrange(0, i));
        lemma_collect_err_extends(toks, i + 1, e);
    } else {
        assert(toks.subrange(0, i) =~= toks);
    }
}

} // verus!
