//! Tool schemas and the coercion engine: a tool's declared parameter shape,
//! conversion of raw string parameters into typed argument values, and
//! schema-driven argument building with required-field checking.

use vstd::prelude::*;

use crate::chars::{
    eq_ignore_case_seq, i64_of_text, is_finite_number_text, parse_i64, parses_as_finite_number,
    split_and_trim, split_char, trimmed,
};
use crate::params::{assoc_get, key_ne, ParamMap};

verus! {

/// One declared parameter of a tool: its name, optional type word, and
/// optional description.
#[derive(Debug, Clone)]
pub struct SchemaProperty {
    pub name: String,
    pub ptype: Option<String>,
    pub description: Option<String>,
}

/// Mathematical shape of a declared parameter.
pub struct SchemaPropertyModel {
    pub name: Seq<char>,
    pub ptype: Option<Seq<char>>,
    pub description: Option<Seq<char>>,
}

impl View for SchemaProperty {
    type V = SchemaPropertyModel;

    open spec fn view(&self) -> SchemaPropertyModel {
        SchemaPropertyModel {
            name: self.name@,
            ptype: match self.ptype {
                Option::Some(s) => Option::Some(s@),
                Option::None => Option::None,
            },
            description: match self.description {
                Option::Some(s) => Option::Some(s@),
                Option::None => Option::None,
            },
        }
    }
}

/// A tool's declared input schema: properties in declared order, and the set
/// of required parameter names.
#[derive(Debug, Clone)]
pub struct ToolSchema {
    pub properties: Vec<SchemaProperty>,
    pub required: Vec<String>,
}

/// Mathematical shape of a schema.
pub struct ToolSchemaModel {
    pub properties: Seq<SchemaPropertyModel>,
    pub required: Seq<Seq<char>>,
}

impl View for ToolSchema {
    type V = ToolSchemaModel;

    open spec fn view(&self) -> ToolSchemaModel {
        ToolSchemaModel {
            properties: self.properties@.map_values(|p: SchemaProperty| p@),
            required: self.required@.map_values(|s: String| s@),
        }
    }
}

/// One discovered tool: name, optional description, optional input schema.
#[derive(Debug, Clone)]
pub struct ToolDescriptor {
    pub name: String,
    pub description: Option<String>,
    pub schema: Option<ToolSchema>,
}

/// Mathematical shape of a tool descriptor.
pub struct ToolDescriptorModel {
    pub name: Seq<char>,
    pub description: Option<Seq<char>>,
    pub schema: Option<ToolSchemaModel>,
}

impl View for ToolDescriptor {
    type V = ToolDescriptorModel;

    open spec fn view(&self) -> ToolDescriptorModel {
        ToolDescriptorModel {
            name: self.name@,
            description: match self.description {
                Option::Some(s) => Option::Some(s@),
                Option::None => Option::None,
            },
            schema: match self.schema {
                Option::Some(s) => Option::Some(s@),
                Option::None => Option::None,
            },
        }
    }
}

/// The result of fetching tools from a target: the discovered descriptors
/// and the elapsed time of the whole spawn, enumerate and shutdown flow.
#[derive(Debug, Clone)]
pub struct ToolList {
    pub tools: Vec<ToolDescriptor>,
    pub elapsed_ms: u64,
}

impl ToolList {
    /// The number of discovered tools.
    pub fn count(&self) -> (r: usize)
        ensures
            r == self.tools@.len(),
    {
        self.tools.len()
    }
}

/// A typed argument value produced by coercion. A `number` that parses as a
/// finite float keeps its original text here; it is turned into a JSON
/// number only at the output boundary.
#[derive(Debug, Clone, PartialEq, Eq)]
pub enum ArgValue {
    Str(String),
    Int(i64),
    Bool(bool),
    Num(String),
    Arr(Vec<String>),
}

/// Mathematical shape of an argument value.
pub enum ArgValueModel {
    Str(Seq<char>),
    Int(int),
    Bool(bool),
    Num(Seq<char>),
    Arr(Seq<Seq<char>>),
}

impl View for ArgValue {
    type V = ArgValueModel;

    open spec fn view(&self) -> ArgValueModel {
        match self {
            ArgValue::Str(s) => ArgValueModel::Str(s@),
            ArgValue::Int(v) => ArgValueModel::Int(*v as int),
            ArgValue::Bool(b) => ArgValueModel::Bool(*b),
            ArgValue::Num(s) => ArgValueModel::Num(s@),
            ArgValue::Arr(v) => ArgValueModel::Arr(v@.map_values(|p: String| p@)),
        }
    }
}

pub open spec fn hint_integer() -> Seq<char> {
    seq!['i', 'n', 't', 'e', 'g', 'e', 'r']
}

pub open spec fn hint_number() -> Seq<char> {
    seq!['n', 'u', 'm', 'b', 'e', 'r']
}

pub open spec fn hint_boolean() -> Seq<char> {
    seq!['b', 'o', 'o', 'l', 'e', 'a', 'n']
}

pub open spec fn hint_array() -> Seq<char> {
    seq!['a', 'r', 'r', 'a', 'y']
}

/// The words accepted, ignoring ASCII case, as `true` by boolean coercion.
pub open spec fn is_true_word(s: Seq<char>) -> bool {
    ||| eq_ignore_case_seq(s, seq!['t', 'r', 'u', 'e'])
    ||| s == seq!['1']
    ||| eq_ignore_case_seq(s, seq!['y', 'e', 's'])
    ||| eq_ignore_case_seq(s, seq!['y'])
}

/// The words accepted, ignoring ASCII case, as `false` by boolean coercion.
pub open spec fn is_false_word(s: Seq<char>) -> bool {
    ||| eq_ignore_case_seq(s, seq!['f', 'a', 'l', 's', 'e'])
    ||| s == seq!['0']
    ||| eq_ignore_case_seq(s, seq!['n', 'o'])
    ||| eq_ignore_case_seq(s, seq!['n'])
}

/// What coercion yields for a raw value under a type hint: `integer` parses
/// as `i64` or keeps the text; `number` keeps the text tagged as a number
/// when it denotes a finite float; `boolean` folds a fixed vocabulary,
/// ignoring case; `array` splits on commas and trims each segment; any other
/// hint passes the text through.
pub open spec fn spec_coerce(raw: Seq<char>, hint: Seq<char>) -> ArgValueModel {
    if hint == hint_integer() {
        match i64_of_text(raw) {
            Some(v) => ArgValueModel::Int(v as int),
            None => ArgValueModel::Str(raw),
        }
    } else if hint == hint_number() {
        if is_finite_number_text(raw) {
            ArgValueModel::Num(raw)
        } else {
            ArgValueModel::Str(raw)
        }
    } else if hint == hint_boolean() {
        if is_true_word(raw) {
            ArgValueModel::Bool(true)
        } else if is_false_word(raw) {
            ArgValueModel::Bool(false)
        } else {
            ArgValueModel::Str(raw)
        }
    } else if hint == hint_array() {
        ArgValueModel::Arr(split_char(raw, ',').map_values(|p: Seq<char>| trimmed(p)))
    } else {
        ArgValueModel::Str(raw)
    }
}

/// Law: integer coercion round-trips. A string that reads as a 64-bit
/// signed integer coerces to that numeric value; any other string comes
/// back unchanged as a string.
pub proof fn lemma_coerce_integer_round_trip(s: Seq<char>)
    ensures
        i64_of_text(s) matches Some(v) ==> spec_coerce(s, hint_integer()) == ArgValueModel::Int(
            v as int,
        ),
        i64_of_text(s) is None ==> spec_coerce(s, hint_integer()) == ArgValueModel::Str(s),
{
}

proof fn lemma_lower_code_one(c: char)
    requires
        crate::chars::lower_code(c) == '1' as u32,
    ensures
        c == '1',
{
    if 65 <= c as u32 && c as u32 <= 90 {
        assert(crate::chars::lower_code(c) >= 97);
    }
}

proof fn lemma_lower_code_zero(c: char)
    requires
        crate::chars::lower_code(c) == '0' as u32,
    ensures
        c == '0',
{
    if 65 <= c as u32 && c as u32 <= 90 {
        assert(crate::chars::lower_code(c) >= 97);
    }
}

/// Law: boolean coercion is case-insensitive. Two strings that agree up to
/// ASCII case are accepted as the same truth value, or both left as
/// strings.
pub proof fn lemma_coerce_boolean_case_insensitive(a: Seq<char>, b: Seq<char>)
    requires
        eq_ignore_case_seq(a, b),
    ensures
        is_true_word(a) <==> is_true_word(b),
        is_false_word(a) <==> is_false_word(b),
        spec_coerce(a, hint_boolean()) matches ArgValueModel::Bool(v) ==> spec_coerce(
            b,
            hint_boolean(),
        ) == ArgValueModel::Bool(v),
{
    if a == seq!['1'] {
        lemma_lower_code_one(b[0]);
        assert(b =~= seq!['1']);
    }
    if b == seq!['1'] {
        lemma_lower_code_one(a[0]);
        assert(a =~= seq!['1']);
    }
    if a == seq!['0'] {
        lemma_lower_code_zero(b[0]);
        assert(b =~= seq!['0']);
    }
    if b == seq!['0'] {
        lemma_lower_code_zero(a[0]);
        assert(a =~= seq!['0']);
    }
}

proof fn lemma_eq_ignore_case_shift(a: Seq<char>, b: Seq<char>, w: Seq<char>)
    requires
        eq_ignore_case_seq(a, b),
    ensures
        eq_ignore_case_seq(a, w) <==> eq_ignore_case_seq(b, w),
{
}

/// Law: tool lookup is case-insensitive. Two requested names that agree up
/// to ASCII case resolve to the same tool, or both to none.
pub proof fn lemma_find_tool_case_insensitive(
    tools: Seq<ToolDescriptorModel>,
    a: Seq<char>,
    b: Seq<char>,
)
    requires
        eq_ignore_case_seq(a, b),
    ensures
        spec_find_tool(tools, a) == spec_find_tool(tools, b),
    decreases tools.len(),
{
    if tools.len() > 0 {
        lemma_eq_ignore_case_shift(a, b, tools[0].name);
        lemma_find_tool_case_insensitive(tools.drop_first(), a, b);
    }
}

proof fn lemma_build_props_required_present(
    props: Seq<SchemaPropertyModel>,
    required: Seq<Seq<char>>,
    rem: Seq<(Seq<char>, Seq<char>)>,
    name: Seq<char>,
)
    requires
        required.contains(name),
        exists|i: int| 0 <= i < props.len() && (#[trigger] props[i]).name == name,
        spec_build_props(props, required, rem) is Ok,
    ensures
        spec_build_props(props, required, rem) matches Ok(pr) && exists|j: int|
            0 <= j < pr.0.len() && (#[trigger] pr.0[j]).0 == name,
    decreases props.len(),
{
    let i = choose|i: int| 0 <= i < props.len() && (#[trigger] props[i]).name == name;
    let p = props[0];
    match assoc_get(rem, p.name) {
        Some(raw) => {
            let rem1 = rem.filter(key_ne(p.name));
            let tail = spec_build_props(props.drop_first(), required, rem1);
            let pr = spec_build_props(props, required, rem)->Ok_0;
            if p.name == name {
                assert(pr.0[0].0 == name);
            } else {
                assert(i > 0);
                assert(props.drop_first()[i - 1].name == name);
                lemma_build_props_required_present(props.drop_first(), required, rem1, name);
                let prt = tail->Ok_0;
                let j = choose|j: int| 0 <= j < prt.0.len() && (#[trigger] prt.0[j]).0 == name;
                assert(pr.0[j + 1].0 == name);
            }
        },
        None => {
            if required.contains(p.name) {
                assert(false);
            } else {
                assert(p.name != name);
                assert(i > 0);
                assert(props.drop_first()[i - 1].name == name);
                lemma_build_props_required_present(props.drop_first(), required, rem, name);
                let tail = spec_build_props(props.drop_first(), required, rem);
                let prt = tail->Ok_0;
                let j = choose|j: int| 0 <= j < prt.0.len() && (#[trigger] prt.0[j]).0 == name;
                let pr = spec_build_props(props, required, rem)->Ok_0;
                assert(pr.0[j].0 == name);
            }
        },
    }
}

/// Law: the required-field invariant. Whenever argument building succeeds,
/// every required name that the schema also declares as a property is
/// present in the built arguments; a required, declared name that was not
/// provided makes building fail instead.
pub proof fn lemma_build_required_present(
    schema: ToolSchemaModel,
    provided: Seq<(Seq<char>, Seq<char>)>,
    name: Seq<char>,
)
    requires
        schema.required.contains(name),
        exists|i: int| 0 <= i < schema.properties.len() && (#[trigger] schema.properties[i]).name
            == name,
        spec_build_arguments(Option::Some(schema), provided) is Ok,
    ensures
        spec_build_arguments(Option::Some(schema), provided) matches Ok(out) && exists|j: int|
            0 <= j < out.len() && (#[trigger] out[j]).0 == name,
{
    lemma_build_props_required_present(schema.properties, schema.required, provided, name);
    let pr = spec_build_props(schema.properties, schema.required, provided)->Ok_0;
    let j = choose|j: int| 0 <= j < pr.0.len() && (#[trigger] pr.0[j]).0 == name;
    let out = spec_build_arguments(Option::Some(schema), provided)->Ok_0;
    assert(out[j].0 == name);
}

/// Compare two strings for (exact) equality.
pub fn str_eq(a: &str, b: &str) -> (r: bool)
    ensures
        r == (a@ == b@),
{
    let na = a.unicode_len();
    let nb = b.unicode_len();
    if na != nb {
        proof {
            assert(a@ != b@);
        }
        return false;
    }
    let mut i: usize = 0;
    while i < na
        invariant
            0 <= i <= na,
            na == a@.len(),
            na == b@.len(),
            forall|k: int| 0 <= k < i ==> a@[k] == b@[k],
        decreases na - i,
    {
        if a.get_char(i) != b.get_char(i) {
            return false;
        }
        i = i + 1;
    }
    proof {
        assert(a@ =~= b@);
    }
    true
}

fn is_true_word_exec(raw: &str) -> (r: bool)
    ensures
        r == is_true_word(raw@),
{
    proof {
        reveal_strlit("true");
        reveal_strlit("1");
        reveal_strlit("yes");
        reveal_strlit("y");
        assert("true"@ =~= seq!['t', 'r', 'u', 'e']);
        assert("1"@ =~= seq!['1']);
        assert("yes"@ =~= seq!['y', 'e', 's']);
        assert("y"@ =~= seq!['y']);
    }
    crate::chars::eq_ignore_case(raw, "true") || str_eq(raw, "1") || crate::chars::eq_ignore_case(
        raw,
        "yes",
    ) || crate::chars::eq_ignore_case(raw, "y")
}

fn is_false_word_exec(raw: &str) -> (r: bool)
    ensures
        r == is_false_word(raw@),
{
    proof {
        reveal_strlit("false");
        reveal_strlit("0");
        reveal_strlit("no");
        reveal_strlit("n");
        assert("false"@ =~= seq!['f', 'a', 'l', 's', 'e']);
        assert("0"@ =~= seq!['0']);
        assert("no"@ =~= seq!['n', 'o']);
        assert("n"@ =~= seq!['n']);
    }
    crate::chars::eq_ignore_case(raw, "false") || str_eq(raw, "0") || crate::chars::eq_ignore_case(
        raw,
        "no",
    ) || crate::chars::eq_ignore_case(raw, "n")
}

/// Coerce a raw string into a typed argument value using a primitive type
/// hint, exactly as `spec_coerce` describes.
pub fn coerce_value(raw: &str, type_hint: &str) -> (r: ArgValue)
    ensures
        r@ == spec_coerce(raw@, type_hint@),
{
    proof {
        reveal_strlit("integer");
        reveal_strlit("number");
        reveal_strlit("boolean");
        reveal_strlit("array");
        assert("integer"@ =~= hint_integer());
        assert("number"@ =~= hint_number());
        assert("boolean"@ =~= hint_boolean());
        assert("array"@ =~= hint_array());
    }
    if str_eq(type_hint, "integer") {
        match parse_i64(raw) {
            Some(v) => ArgValue::Int(v),
            None => ArgValue::Str(raw.to_owned()),
        }
    } else if str_eq(type_hint, "number") {
        if parses_as_finite_number(raw) {
            ArgValue::Num(raw.to_owned())
        } else {
            ArgValue::Str(raw.to_owned())
        }
    } else if str_eq(type_hint, "boolean") {
        if is_true_word_exec(raw) {
            ArgValue::Bool(true)
        } else if is_false_word_exec(raw) {
            ArgValue::Bool(false)
        } else {
            ArgValue::Str(raw.to_owned())
        }
    } else if str_eq(type_hint, "array") {
        let parts = split_and_trim(raw, ',');
        let r = ArgValue::Arr(parts);
        proof {
            assert(r@ matches ArgValueModel::Arr(a) && a =~~= split_char(raw@, ',').map_values(
                |p: Seq<char>| trimmed(p),
            ));
        }
        r
    } else {
        ArgValue::Str(raw.to_owned())
    }
}

/// The type hint a property is coerced under: its declared type, or `string`
/// where none is declared.
pub open spec fn hint_of(pt: Option<Seq<char>>) -> Seq<char> {
    match pt {
        Option::Some(h) => h,
        Option::None => seq!['s', 't', 'r', 'i', 'n', 'g'],
    }
}

/// Walking the declared properties in order against the provided map: each
/// provided property is removed from the working map and coerced under its
/// declared type; the first required property not provided aborts with its
/// name. Yields the coerced pairs in property order and the undeclared
/// leftovers.
pub open spec fn spec_build_props(
    props: Seq<SchemaPropertyModel>,
    required: Seq<Seq<char>>,
    rem: Seq<(Seq<char>, Seq<char>)>,
) -> Result<(Seq<(Seq<char>, ArgValueModel)>, Seq<(Seq<char>, Seq<char>)>), Seq<char>>
    decreases props.len(),
{
    if props.len() == 0 {
        Ok((Seq::empty(), rem))
    } else {
        let p = props[0];
        match assoc_get(rem, p.name) {
            Some(raw) => {
                let rem1 = rem.filter(key_ne(p.name));
                match spec_build_props(props.drop_first(), required, rem1) {
                    Err(e) => Err(e),
                    Ok(pr) => Ok(
                        (seq![(p.name, spec_coerce(raw, hint_of(p.ptype)))] + pr.0, pr.1),
                    ),
                }
            },
            None => if required.contains(p.name) {
                Err(p.name)
            } else {
                spec_build_props(props.drop_first(), required, rem)
            },
        }
    }
}

/// What building arguments yields: the coerced declared properties in
/// property order, then every undeclared leftover passed through as a
/// string, in map order — or the name of the first required property that
/// is missing. A missing schema declares nothing, so everything passes
/// through.
pub open spec fn spec_build_arguments(
    schema: Option<ToolSchemaModel>,
    provided: Seq<(Seq<char>, Seq<char>)>,
) -> Result<Seq<(Seq<char>, ArgValueModel)>, Seq<char>> {
    let props = match schema {
        Option::Some(s) => s.properties,
        Option::None => Seq::empty(),
    };
    let required = match schema {
        Option::Some(s) => s.required,
        Option::None => Seq::empty(),
    };
    match spec_build_props(props, required, provided) {
        Err(e) => Err(e),
        Ok(pr) => Ok(
            pr.0 + pr.1.map_values(|e: (Seq<char>, Seq<char>)| (e.0, ArgValueModel::Str(e.1))),
        ),
    }
}

/// Failure of argument building.
#[derive(Debug, Clone, PartialEq, Eq)]
pub enum BuildError {
    /// A property in the schema's `required` set was not provided; carries
    /// the first such property's name, in schema order.
    MissingRequired(String),
}

/// Whether `name` is one of the `required` names (exact match).
pub fn required_contains(required: &Vec<String>, name: &str) -> (r: bool)
    ensures
        r == required@.map_values(|s: String| s@).contains(name@),
{
    let ghost req = required@.map_values(|s: String| s@);
    let n = required.len();
    let mut i: usize = 0;
    while i < n
        invariant
            0 <= i <= n,
            n == required.len(),
            req == required@.map_values(|s: String| s@),
            forall|j: int| 0 <= j < i ==> req[j] != name@,
        decreases n - i,
    {
        if str_eq(required[i].as_str(), name) {
            proof {
                assert(req[i as int] == name@);
            }
            return true;
        }
        i = i + 1;
    }
    proof {
        assert(forall|j: int| 0 <= j < req.len() ==> req[j] != name@);
    }
    false
}

/// Build the typed argument list for a tool from its schema and the provided
/// parameter map, exactly as `spec_build_arguments` describes: declared
/// properties are coerced, required ones must be present, and undeclared
/// extras pass through as strings.
pub fn build_arguments_from_schema(tool: &ToolDescriptor, provided: &ParamMap) -> (r: Result<
    Vec<(String, ArgValue)>,
    BuildError,
>)
    ensures
        match r {
            Ok(out) => spec_build_arguments(tool@.schema, provided@) == Ok::<_, Seq<char>>(
                out@.map_values(|e: (String, ArgValue)| (e.0@, e.1@)),
            ),
            Err(e) => e matches BuildError::MissingRequired(name) && spec_build_arguments(
                tool@.schema,
                provided@,
            ) == Err::<Seq<(Seq<char>, ArgValueModel)>, _>(name@),
        },
{
    let mut out: Vec<(String, ArgValue)> = Vec::new();
    let mut rem: ParamMap = provided.clone();
    let ghost props: Seq<SchemaPropertyModel> = match tool@.schema {
        Option::Some(s) => s.properties,
        Option::None => Seq::empty(),
    };
    let ghost req: Seq<Seq<char>> = match tool@.schema {
        Option::Some(s) => s.required,
        Option::None => Seq::empty(),
    };
    match &tool.schema {
        Option::None => {},
        Option::Some(schema) => {
            let np = schema.properties.len();
            let mut i: usize = 0;
            proof {
                assert(props.skip(0) =~= props);
                match spec_build_props(props, req, provided@) {
                    Ok(pr) => {
                        assert(Seq::<(Seq<char>, ArgValueModel)>::empty() + pr.0 =~= pr.0);
                    },
                    Err(_) => {},
                }
            }
            while i < np
                invariant
                    0 <= i <= np,
                    np == schema.properties.len(),
                    props == schema@.properties,
                    req == schema@.required,
                    tool@.schema == Option::Some(schema@),
                    ({
                        match spec_build_props(props.skip(i as int), req, rem@) {
                            Ok(pr) => spec_build_props(props, req, provided@) matches Ok(full)
                                && full.0 == out@.map_values(
                                |e: (String, ArgValue)| (e.0@, e.1@),
                            ) + pr.0 && full.1 == pr.1,
                            Err(e) => spec_build_props(props, req, provided@) == Err::<
                                (Seq<(Seq<char>, ArgValueModel)>, Seq<(Seq<char>, Seq<char>)>),
                                _,
                            >(e),
                        }
                    }),
                decreases np - i,
            {
                let ghost tail = props.skip(i as int);
                proof {
                    assert(tail[0] == props[i as int]);
                    assert(tail.drop_first() =~= props.skip(i + 1));
                }
                let prop = &schema.properties[i];
                let ghost rem_before = rem@;
                let removed = rem.remove(prop.name.as_str());
                match removed {
                    Some(raw) => {
                        let hinted: &str = match &prop.ptype {
                            Option::Some(t) => t.as_str(),
                            Option::None => "string",
                        };
                        proof {
                            reveal_strlit("string");
                            assert("string"@ =~= seq!['s', 't', 'r', 'i', 'n', 'g']);
                            assert(hinted@ == hint_of(props[i as int].ptype));
                        }
                        let cv = coerce_value(raw.as_str(), hinted);
                        let key = prop.name.clone();
                        let ghost out_before = out@.map_values(
                            |e: (String, ArgValue)| (e.0@, e.1@),
                        );
                        let ghost pm = (props[i as int].name, cv@);
                        out.push((key, cv));
                        proof {
                            assert(out@.map_values(|e: (String, ArgValue)| (e.0@, e.1@))
                                =~= out_before.push(pm));
                            assert(assoc_get(rem_before, props[i as int].name) == Some(raw@));
                            assert(rem@ == rem_before.filter(key_ne(props[i as int].name)));
                            match spec_build_props(props.skip(i + 1), req, rem@) {
                                Ok(pr) => {
                                    assert(out_before + (seq![pm] + pr.0) =~= out_before.push(
                                        pm,
                                    ) + pr.0);
                                },
                                Err(_) => {},
                            }
                        }
                    },
                    None => {
                        if required_contains(&schema.required, prop.name.as_str()) {
                            proof {
                                assert(spec_build_props(tail, req, rem_before) == Err::<
                                    (
                                        Seq<(Seq<char>, ArgValueModel)>,
                                        Seq<(Seq<char>, Seq<char>)>,
                                    ),
                                    _,
                                >(props[i as int].name));
                            }
                            return Err(BuildError::MissingRequired(prop.name.clone()));
                        }
                    },
                }
                i = i + 1;
            }
            proof {
                assert(props.skip(np as int) =~= Seq::<SchemaPropertyModel>::empty());
            }
        },
    }
    let ghost built = out@.map_values(|e: (String, ArgValue)| (e.0@, e.1@));
    let ghost rem_final = rem@;
    proof {
        assert(spec_build_props(props, req, provided@) matches Ok(full) && full.0 == built
            && full.1 == rem_final) by {
            let k: int = props.len() as int;
            assert(props.skip(k) =~= Seq::<SchemaPropertyModel>::empty());
            assert(spec_build_props(props.skip(k), req, rem_final) == Ok::<_, Seq<char>>((
                Seq::<(Seq<char>, ArgValueModel)>::empty(),
                rem_final,
            )));
            assert(built + Seq::<(Seq<char>, ArgValueModel)>::empty() =~= built);
        }
    }
    let n = rem.entries.len();
    let mut j: usize = 0;
    while j < n
        invariant
            0 <= j <= n,
            n == rem.entries.len(),
            rem@ == rem_final,
            out@.map_values(|e: (String, ArgValue)| (e.0@, e.1@)) =~= built + rem_final.subrange(
                0,
                j as int,
            ).map_values(|e: (Seq<char>, Seq<char>)| (e.0, ArgValueModel::Str(e.1))),
        decreases n - j,
    {
        let k = rem.entries[j].0.clone();
        let v = rem.entries[j].1.clone();
        let ghost out_before = out@.map_values(|e: (String, ArgValue)| (e.0@, e.1@));
        out.push((k, ArgValue::Str(v)));
        proof {
            assert(out@.map_values(|e: (String, ArgValue)| (e.0@, e.1@)) =~= out_before.push(
                (rem_final[j as int].0, ArgValueModel::Str(rem_final[j as int].1)),
            ));
            assert(rem_final.subrange(0, j + 1) =~= rem_final.subrange(0, j as int).push(
                rem_final[j as int],
            ));
        }
        j = j + 1;
    }
    proof {
        assert(rem_final.subrange(0, n as int) =~= rem_final);
        assert(out@.map_values(|e: (String, ArgValue)| (e.0@, e.1@)) =~= built
            + rem_final.map_values(|e: (Seq<char>, Seq<char>)| (e.0, ArgValueModel::Str(e.1))));
    }
    Ok(out)
}

/// Index of the first tool whose name equals `name` up to ASCII case.
pub open spec fn spec_find_tool(tools: Seq<ToolDescriptorModel>, name: Seq<char>) -> Option<int>
    decreases tools.len(),
{
    if tools.len() == 0 {
        None
    } else if eq_ignore_case_seq(tools[0].name, name) {
        Some(0)
    } else {
        match spec_find_tool(tools.drop_first(), name) {
            Some(i) => Some(i + 1),
            None => None,
        }
    }
}

pub proof fn lemma_spec_find_tool_at(tools: Seq<ToolDescriptorModel>, name: Seq<char>, i: int)
    requires
        0 <= i < tools.len(),
        eq_ignore_case_seq(tools[i].name, name),
        forall|j: int| 0 <= j < i ==> !eq_ignore_case_seq(tools[j].name, name),
    ensures
        spec_find_tool(tools, name) == Some(i),
    decreases i,
{
    if i > 0 {
        lemma_spec_find_tool_at(tools.drop_first(), name, i - 1);
    }
}

pub proof fn lemma_spec_find_tool_none(tools: Seq<ToolDescriptorModel>, name: Seq<char>)
    requires
        forall|j: int| 0 <= j < tools.len() ==> !eq_ignore_case_seq(tools[j].name, name),
    ensures
        spec_find_tool(tools, name) is None,
    decreases tools.len(),
{
    if tools.len() > 0 {
        lemma_spec_find_tool_none(tools.drop_first(), name);
    }
}

/// Find a tool by name, ignoring ASCII case; the first match wins.
pub fn find_tool_case_insensitive<'a>(tools: &'a Vec<ToolDescriptor>, name: &str) -> (r: Option<
    &'a ToolDescriptor,
>)
    ensures
        ({
            let models = tools@.map_values(|t: ToolDescriptor| t@);
            match r {
                Some(t) => spec_find_tool(models, name@) matches Some(i) && t@ == models[i],
                None => spec_find_tool(models, name@) is None,
            }
        }),
{
    let ghost models = tools@.map_values(|t: ToolDescriptor| t@);
    let n = tools.len();
    let mut i: usize = 0;
    while i < n
        invariant
            0 <= i <= n,
            n == tools.len(),
            models == tools@.map_values(|t: ToolDescriptor| t@),
            forall|j: int| 0 <= j < i ==> !eq_ignore_case_seq(models[j].name, name@),
        decreases n - i,
    {
        if crate::chars::eq_ignore_case(tools[i].name.as_str(), name) {
            proof {
                lemma_spec_find_tool_at(models, name@, i as int);
            }
            return Some(&tools[i]);
        }
        i = i + 1;
    }
    proof {
        lemma_spec_find_tool_none(models, name@);
    }
    None
}

/// One row of a tool's parameter listing: name, type (`any` where none is
/// declared), whether required, and description (empty where none).
pub fn extract_params(tool: &ToolDescriptor) -> (r: Vec<(String, String, bool, String)>)
    ensures
        ({
            match tool@.schema {
                Option::None => r@.len() == 0,
                Option::Some(s) => {
                    &&& r@.len() == s.properties.len()
                    &&& forall|i: int|
                        0 <= i < r@.len() ==> {
                            &&& (#[trigger] r@[i]).0@ == s.properties[i].name
                            &&& r@[i].1@ == match s.properties[i].ptype {
                                Option::Some(t) => t,
                                Option::None => seq!['a', 'n', 'y'],
                            }
                            &&& r@[i].2 == s.required.contains(s.properties[i].name)
                            &&& r@[i].3@ == match s.properties[i].description {
                                Option::Some(d) => d,
                                Option::None => Seq::<char>::empty(),
                            }
                        }
                },
            }
        }),
{
    let mut r: Vec<(String, String, bool, String)> = Vec::new();
    match &tool.schema {
        Option::None => r,
        Option::Some(schema) => {
            let n = schema.properties.len();
            let mut i: usize = 0;
            while i < n
                invariant
                    0 <= i <= n,
                    n == schema.properties.len(),
                    r@.len() == i,
                    forall|k: int|
                        0 <= k < i ==> {
                            &&& (#[trigger] r@[k]).0@ == schema@.properties[k].name
                            &&& r@[k].1@ == match schema@.properties[k].ptype {
                                Option::Some(t) => t,
                                Option::None => seq!['a', 'n', 'y'],
                            }
                            &&& r@[k].2 == schema@.required.contains(schema@.properties[k].name)
                            &&& r@[k].3@ == match schema@.properties[k].description {
                                Option::Some(d) => d,
                                Option::None => Seq::<char>::empty(),
                            }
                        },
                decreases n - i,
            {
                let prop = &schema.properties[i];
                let ptype: String = match &prop.ptype {
                    Option::Some(t) => t.clone(),
                    Option::None => {
                        let a = String::from_str("any");
                        proof {
                            reveal_strlit("any");
                            assert("any"@ =~= seq!['a', 'n', 'y']);
                        }
                        a
                    },
                };
                let desc: String = match &prop.description {
                    Option::Some(d) => d.clone(),
                    Option::None => String::new(),
                };
                let is_req = required_contains(&schema.required, prop.name.as_str());
                r.push((prop.name.clone(), ptype, is_req, desc));
                i = i + 1;
            }
            r
        },
    }
}

} // verus!
