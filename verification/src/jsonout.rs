//! JSON text assembly for machine output: minimal string escaping,
//! key-value and object helpers, and the document shapes the commands
//! emit. Machine output never carries ANSI codes or decorative framing.

use vstd::prelude::*;

use crate::chars::{dec_digit_char, u64_text};
use crate::schema::{ArgValue, ArgValueModel};

verus! {

/// A control character under JSON escaping rules.
pub open spec fn is_control_char(c: char) -> bool {
    (c as u32) < 32 || (127 <= c as u32 && c as u32 <= 159)
}

/// The lower-case hex digit for a value below sixteen.
pub open spec fn hex_digit_char(d: int) -> char {
    if d < 10 {
        dec_digit_char(d)
    } else if d == 10 {
        'a'
    } else if d == 11 {
        'b'
    } else if d == 12 {
        'c'
    } else if d == 13 {
        'd'
    } else if d == 14 {
        'e'
    } else {
        'f'
    }
}

/// How one character reads inside a JSON string: the named escapes for
/// backslash, quote and the common controls, `\u00xx` for other controls,
/// and the character itself otherwise.
pub open spec fn esc_char(c: char) -> Seq<char> {
    if c == '\\' {
        seq!['\\', '\\']
    } else if c == '"' {
        seq!['\\', '"']
    } else if c == '\n' {
        seq!['\\', 'n']
    } else if c == '\r' {
        seq!['\\', 'r']
    } else if c == '\t' {
        seq!['\\', 't']
    } else if is_control_char(c) {
        seq!['\\', 'u', '0', '0', hex_digit_char(c as u32 as int / 16), hex_digit_char(c as u32 as int % 16)]
    } else {
        seq![c]
    }
}

/// A string escaped for a JSON string context, character by character.
pub open spec fn spec_json_escape(s: Seq<char>) -> Seq<char>
    decreases s.len(),
{
    if s.len() == 0 {
        Seq::empty()
    } else {
        esc_char(s[0]) + spec_json_escape(s.drop_first())
    }
}

/// A quoted, escaped JSON string.
pub open spec fn spec_quoted(s: Seq<char>) -> Seq<char> {
    seq!['"'] + spec_json_escape(s) + seq!['"']
}

/// A `"key":value` pair whose value is already JSON text.
pub open spec fn spec_kv_raw(k: Seq<char>, v: Seq<char>) -> Seq<char> {
    spec_quoted(k) + seq![':'] + v
}

/// A `"key":"value"` pair with a string value.
pub open spec fn spec_kv(k: Seq<char>, v: Seq<char>) -> Seq<char> {
    spec_quoted(k) + seq![':'] + spec_quoted(v)
}

/// Fields joined with commas.
pub open spec fn spec_join_comma(fields: Seq<Seq<char>>) -> Seq<char>
    decreases fields.len(),
{
    if fields.len() == 0 {
        Seq::empty()
    } else if fields.len() == 1 {
        fields[0]
    } else {
        fields[0] + seq![','] + spec_join_comma(fields.drop_first())
    }
}

/// An object of already-rendered fields.
pub open spec fn spec_obj(fields: Seq<Seq<char>>) -> Seq<char> {
    seq!['{'] + spec_join_comma(fields) + seq!['}']
}

/// An array of already-rendered items.
pub open spec fn spec_arr(items: Seq<Seq<char>>) -> Seq<char> {
    seq!['['] + spec_join_comma(items) + seq![']']
}

fn hex_digit_str(d: u32) -> (r: &'static str)
    requires
        d < 16,
    ensures
        r@ == seq![hex_digit_char(d as int)],
{
    proof {
        reveal_strlit("0");
        reveal_strlit("1");
        reveal_strlit("2");
        reveal_strlit("3");
        reveal_strlit("4");
        reveal_strlit("5");
        reveal_strlit("6");
        reveal_strlit("7");
        reveal_strlit("8");
        reveal_strlit("9");
        reveal_strlit("a");
        reveal_strlit("b");
        reveal_strlit("c");
        reveal_strlit("d");
        reveal_strlit("e");
        reveal_strlit("f");
        assert("0"@ =~= seq!['0']);
        assert("1"@ =~= seq!['1']);
        assert("2"@ =~= seq!['2']);
        assert("3"@ =~= seq!['3']);
        assert("4"@ =~= seq!['4']);
        assert("5"@ =~= seq!['5']);
        assert("6"@ =~= seq!['6']);
        assert("7"@ =~= seq!['7']);
        assert("8"@ =~= seq!['8']);
        assert("9"@ =~= seq!['9']);
        assert("a"@ =~= seq!['a']);
        assert("b"@ =~= seq!['b']);
        assert("c"@ =~= seq!['c']);
        assert("d"@ =~= seq!['d']);
        assert("e"@ =~= seq!['e']);
        assert("f"@ =~= seq!['f']);
    }
    match d {
        0 => "0",
        1 => "1",
        2 => "2",
        3 => "3",
        4 => "4",
        5 => "5",
        6 => "6",
        7 => "7",
        8 => "8",
        9 => "9",
        10 => "a",
        11 => "b",
        12 => "c",
        13 => "d",
        14 => "e",
        _ => "f",
    }
}

/// Escape a string minimally for a JSON string context.
pub fn json_escape(input: &str) -> (r: String)
    ensures
        r@ == spec_json_escape(input@),
{
    let n = input.unicode_len();
    let mut out = String::new();
    let mut i: usize = 0;
    proof {
        reveal_strlit("\\\\");
        reveal_strlit("\\\"");
        reveal_strlit("\\n");
        reveal_strlit("\\r");
        reveal_strlit("\\t");
        reveal_strlit("\\u00");
        assert("\\\\"@ =~= seq!['\\', '\\']);
        assert("\\\""@ =~= seq!['\\', '"']);
        assert("\\n"@ =~= seq!['\\', 'n']);
        assert("\\r"@ =~= seq!['\\', 'r']);
        assert("\\t"@ =~= seq!['\\', 't']);
        assert("\\u00"@ =~= seq!['\\', 'u', '0', '0']);
    }
    while i < n
        invariant
            0 <= i <= n,
            n == input@.len(),
            out@ =~= spec_json_escape(input@.subrange(0, i as int)),
        decreases n - i,
    {
        let ghost pre = input@.subrange(0, i as int);
        proof {
            lemma_json_escape_push(pre, input@[i as int]);
            assert(pre.push(input@[i as int]) =~= input@.subrange(0, i + 1));
        }
        let ghost out_pre = out@;
        let c = input.get_char(i);
        if c == '\\' {
            out.append("\\\\");
        } else if c == '"' {
            out.append("\\\"");
        } else if c == '\n' {
            out.append("\\n");
        } else if c == '\r' {
            out.append("\\r");
        } else if c == '\t' {
            out.append("\\t");
        } else if (c as u32) < 32 || (127 <= c as u32 && c as u32 <= 159) {
            out.append("\\u00");
            out.append(hex_digit_str(c as u32 / 16));
            out.append(hex_digit_str(c as u32 % 16));
        } else {
            let piece = input.substring_char(i, i + 1);
            out.append(piece);
            proof {
                assert(piece@ =~= seq![input@[i as int]]);
            }
        }
        proof {
            reveal_strlit("\\\\");
            reveal_strlit("\\\"");
            reveal_strlit("\\n");
            reveal_strlit("\\r");
            reveal_strlit("\\t");
            reveal_strlit("\\u00");
            assert("\\\\"@ =~= seq!['\\', '\\']);
            assert("\\\""@ =~= seq!['\\', '"']);
            assert("\\n"@ =~= seq!['\\', 'n']);
            assert("\\r"@ =~= seq!['\\', 'r']);
            assert("\\t"@ =~= seq!['\\', 't']);
            assert("\\u00"@ =~= seq!['\\', 'u', '0', '0']);
            assert(out@ =~= out_pre + esc_char(input@[i as int]));
            assert(out@ =~= spec_json_escape(input@.subrange(0, i + 1)));
        }
        i = i + 1;
    }
    proof {
        assert(input@.subrange(0, n as int) =~= input@);
    }
    out
}

proof fn lemma_json_escape_push(s: Seq<char>, c: char)
    ensures
        spec_json_escape(s.push(c)) == spec_json_escape(s) + esc_char(c),
    decreases s.len(),
{
    reveal_with_fuel(spec_json_escape, 2);
    if s.len() == 0 {
        assert(s.push(c)[0] == c);
        assert(s.push(c).drop_first() =~= Seq::<char>::empty());
        assert(spec_json_escape(s.push(c)) =~= esc_char(c));
        assert(spec_json_escape(s) + esc_char(c) =~= esc_char(c));
    } else {
        assert(s.push(c)[0] == s[0]);
        assert(s.push(c).drop_first() =~= s.drop_first().push(c));
        lemma_json_escape_push(s.drop_first(), c);
        assert(esc_char(s[0]) + (spec_json_escape(s.drop_first()) + esc_char(c)) =~= (esc_char(
            s[0],
        ) + spec_json_escape(s.drop_first())) + esc_char(c));
    }
}

/// Wrap a key and raw value into a JSON key-value pair; the value must
/// already be JSON text.
pub fn json_kv_raw(key: &str, raw_value: &str) -> (r: String)
    ensures
        r@ == spec_kv_raw(key@, raw_value@),
{
    let mut out = String::new();
    out.append("\"");
    let k = json_escape(key);
    out.append(k.as_str());
    out.append("\":");
    out.append(raw_value);
    proof {
        reveal_strlit("\"");
        reveal_strlit("\":");
        assert("\""@ =~= seq!['"']);
        assert("\":"@ =~= seq!['"', ':']);
        assert(out@ =~= spec_kv_raw(key@, raw_value@));
    }
    out
}

/// Wrap a key and string value into a JSON key-value pair.
pub fn json_kv(key: &str, value: &str) -> (r: String)
    ensures
        r@ == spec_kv(key@, value@),
{
    let quoted = json_quote(value);
    let r = json_kv_raw(key, quoted.as_str());
    r
}

/// Quote and escape a string as JSON text.
pub fn json_quote(value: &str) -> (r: String)
    ensures
        r@ == spec_quoted(value@),
{
    let mut out = String::new();
    out.append("\"");
    let v = json_escape(value);
    out.append(v.as_str());
    out.append("\"");
    proof {
        reveal_strlit("\"");
        assert("\""@ =~= seq!['"']);
        assert(out@ =~= spec_quoted(value@));
    }
    out
}

/// Turn an optional string into JSON text: a quoted string, or `null`.
pub fn json_opt_str(v: Option<&str>) -> (r: String)
    ensures
        match v {
            Some(s) => r@ == spec_quoted(s@),
            None => r@ == "null"@,
        },
{
    match v {
        Some(s) => json_quote(s),
        None => {
            let mut out = String::new();
            out.append("null");
            proof {
                assert(out@ =~= "null"@);
            }
            out
        },
    }
}

/// Join already-rendered fields into a JSON object.
pub fn json_obj(fields: &Vec<String>) -> (r: String)
    ensures
        r@ == spec_obj(fields@.map_values(|f: String| f@)),
{
    let ghost fs = fields@.map_values(|f: String| f@);
    let mut out = String::new();
    out.append("{");
    proof {
        reveal_strlit("{");
        assert("{"@ =~= seq!['{']);
        assert(out@ =~= seq!['{'] + spec_join_prefix(fs, 0));
    }
    let n = fields.len();
    let mut i: usize = 0;
    while i < n
        invariant
            0 <= i <= n,
            n == fields.len(),
            fs == fields@.map_values(|f: String| f@),
            out@ =~= seq!['{'] + spec_join_prefix(fs, i as int),
        decreases n - i,
    {
        if i > 0 {
            out.append(",");
        }
        out.append(fields[i].as_str());
        proof {
            reveal_strlit(",");
            assert(","@ =~= seq![',']);
            lemma_join_prefix_step(fs, i as int);
        }
        i = i + 1;
    }
    out.append("}");
    proof {
        reveal_strlit("{");
        reveal_strlit("}");
        assert("{"@ =~= seq!['{']);
        assert("}"@ =~= seq!['}']);
        lemma_join_prefix_whole(fs);
        assert(out@ =~= spec_obj(fs));
    }
    out
}

/// Join already-rendered items into a JSON array.
pub fn json_arr(items: &Vec<String>) -> (r: String)
    ensures
        r@ == spec_arr(items@.map_values(|f: String| f@)),
{
    let ghost fs = items@.map_values(|f: String| f@);
    let mut out = String::new();
    out.append("[");
    proof {
        reveal_strlit("[");
        assert("["@ =~= seq!['[']);
        assert(out@ =~= seq!['['] + spec_join_prefix(fs, 0));
    }
    let n = items.len();
    let mut i: usize = 0;
    while i < n
        invariant
            0 <= i <= n,
            n == items.len(),
            fs == items@.map_values(|f: String| f@),
            out@ =~= seq!['['] + spec_join_prefix(fs, i as int),
        decreases n - i,
    {
        if i > 0 {
            out.append(",");
        }
        out.append(items[i].as_str());
        proof {
            reveal_strlit(",");
            assert(","@ =~= seq![',']);
            lemma_join_prefix_step(fs, i as int);
        }
        i = i + 1;
    }
    out.append("]");
    proof {
        reveal_strlit("[");
        reveal_strlit("]");
        assert("["@ =~= seq!['[']);
        assert("]"@ =~= seq![']']);
        lemma_join_prefix_whole(fs);
        assert(out@ =~= spec_arr(fs));
    }
    out
}

/// The first `i` fields joined with commas.
pub open spec fn spec_join_prefix(fields: Seq<Seq<char>>, i: int) -> Seq<char>
    decreases i,
{
    if i <= 0 {
        Seq::empty()
    } else if i == 1 {
        fields[0]
    } else {
        spec_join_prefix(fields, i - 1) + seq![','] + fields[i - 1]
    }
}

proof fn lemma_join_prefix_step(fields: Seq<Seq<char>>, i: int)
    requires
        0 <= i < fields.len(),
    ensures
        i == 0 ==> spec_join_prefix(fields, 1) == fields[0],
        i > 0 ==> spec_join_prefix(fields, i + 1) == spec_join_prefix(fields, i) + seq![',']
            + fields[i],
{
}

proof fn lemma_join_prefix_whole(fields: Seq<Seq<char>>)
    ensures
        spec_join_prefix(fields, fields.len() as int) == spec_join_comma(fields),
    decreases fields.len(),
{
    if fields.len() > 1 {
        let tail = fields.drop_first();
        lemma_join_prefix_whole(tail);
        lemma_join_prefix_shift(fields, fields.len() as int);
    }
}

/// The JSON text of one coerced argument value: a quoted string, a bare
/// integer, a bare boolean, the number's own text, or an array of quoted
/// strings.
pub open spec fn spec_arg_value_json(v: ArgValueModel) -> Seq<char> {
    match v {
        ArgValueModel::Str(s) => spec_quoted(s),
        ArgValueModel::Int(i) => crate::chars::i64_text(i),
        ArgValueModel::Bool(b) => if b {
            "true"@
        } else {
            "false"@
        },
        ArgValueModel::Num(s) => s,
        ArgValueModel::Arr(items) => spec_arr(items.map_values(|s: Seq<char>| spec_quoted(s))),
    }
}

/// Render one coerced argument value as JSON text.
pub fn arg_value_json(v: &ArgValue) -> (r: String)
    ensures
        r@ == spec_arg_value_json(v@),
{
    match v {
        ArgValue::Str(s) => json_quote(s.as_str()),
        ArgValue::Int(i) => crate::chars::i64_to_string(*i),
        ArgValue::Bool(b) => {
            let mut out = String::new();
            if *b {
                out.append("true");
            } else {
                out.append("false");
            }
            proof {
                if *b {
                    assert(out@ =~= "true"@);
                } else {
                    assert(out@ =~= "false"@);
                }
            }
            out
        },
        ArgValue::Num(s) => s.clone(),
        ArgValue::Arr(items) => {
            let ghost models = items@.map_values(|s: String| s@);
            let n = items.len();
            let mut quoted: Vec<String> = Vec::new();
            let mut i: usize = 0;
            while i < n
                invariant
                    0 <= i <= n,
                    n == items.len(),
                    models == items@.map_values(|s: String| s@),
                    quoted@.map_values(|f: String| f@) =~= models.subrange(0, i as int).map_values(
                        |s: Seq<char>| spec_quoted(s),
                    ),
                decreases n - i,
            {
                let q = json_quote(items[i].as_str());
                let ghost q_model = q@;
                let ghost before = quoted@.map_values(|f: String| f@);
                quoted.push(q);
                proof {
                    assert(quoted@.map_values(|f: String| f@) =~= before.push(q_model));
                    assert(models.subrange(0, i + 1) =~= models.subrange(0, i as int).push(
                        models[i as int],
                    ));
                    assert(models.subrange(0, i + 1).map_values(|s: Seq<char>| spec_quoted(s))
                        =~= models.subrange(0, i as int).map_values(
                        |s: Seq<char>| spec_quoted(s),
                    ).push(spec_quoted(models[i as int])));
                }
                i = i + 1;
            }
            proof {
                assert(models.subrange(0, n as int) =~= models);
            }
            let r = json_arr(&quoted);
            r
        },
    }
}

/// The JSON object holding the coerced arguments, in their built order.
pub open spec fn spec_arguments_json(args: Seq<(Seq<char>, ArgValueModel)>) -> Seq<char> {
    spec_obj(
        args.map_values(|e: (Seq<char>, ArgValueModel)| spec_kv_raw(e.0, spec_arg_value_json(e.1))),
    )
}

/// Render the coerced arguments as a JSON object.
pub fn arguments_json(args: &Vec<(String, ArgValue)>) -> (r: String)
    ensures
        r@ == spec_arguments_json(args@.map_values(|e: (String, ArgValue)| (e.0@, e.1@))),
{
    let ghost models = args@.map_values(|e: (String, ArgValue)| (e.0@, e.1@));
    let n = args.len();
    let mut fields: Vec<String> = Vec::new();
    let mut i: usize = 0;
    while i < n
        invariant
            0 <= i <= n,
            n == args.len(),
            models == args@.map_values(|e: (String, ArgValue)| (e.0@, e.1@)),
            fields@.map_values(|f: String| f@) =~= models.subrange(0, i as int).map_values(
                |e: (Seq<char>, ArgValueModel)| spec_kv_raw(e.0, spec_arg_value_json(e.1)),
            ),
        decreases n - i,
    {
        let v = arg_value_json(&args[i].1);
        let f = json_kv_raw(args[i].0.as_str(), v.as_str());
        let ghost f_model = f@;
        let ghost before = fields@.map_values(|f2: String| f2@);
        fields.push(f);
        proof {
            assert(fields@.map_values(|f2: String| f2@) =~= before.push(f_model));
            assert(models.subrange(0, i + 1) =~= models.subrange(0, i as int).push(
                models[i as int],
            ));
            assert(models.subrange(0, i + 1).map_values(
                |e: (Seq<char>, ArgValueModel)| spec_kv_raw(e.0, spec_arg_value_json(e.1)),
            ) =~= models.subrange(0, i as int).map_values(
                |e: (Seq<char>, ArgValueModel)| spec_kv_raw(e.0, spec_arg_value_json(e.1)),
            ).push(spec_kv_raw(models[i as int].0, spec_arg_value_json(models[i as int].1))));
        }
        i = i + 1;
    }
    proof {
        assert(models.subrange(0, n as int) =~= models);
    }
    let r = json_obj(&fields);
    r
}

/// The machine error document: status `error` plus the message.
pub fn error_json(msg: &str) -> (r: String)
    ensures
        r@ == spec_obj(seq![spec_kv("status"@, "error"@), spec_kv("error"@, msg@)]),
{
    let mut fields: Vec<String> = Vec::new();
    fields.push(json_kv("status", "error"));
    fields.push(json_kv("error", msg));
    proof {
        assert(fields@.map_values(|f: String| f@) =~= seq![
            spec_kv("status"@, "error"@),
            spec_kv("error"@, msg@),
        ]);
    }
    json_obj(&fields)
}

/// The description to show: the tool's own, or empty where none is given.
pub open spec fn desc_or_empty(d: Option<Seq<char>>) -> Seq<char> {
    match d {
        Option::Some(s) => s,
        Option::None => Seq::empty(),
    }
}

/// One tool as a listing item: its name and description.
pub open spec fn spec_tool_item_json(t: crate::schema::ToolDescriptorModel) -> Seq<char> {
    spec_obj(
        seq![spec_kv("name"@, t.name), spec_kv("description"@, desc_or_empty(t.description))],
    )
}

fn tool_item_json(t: &crate::schema::ToolDescriptor) -> (r: String)
    ensures
        r@ == spec_tool_item_json(t@),
{
    let mut fields: Vec<String> = Vec::new();
    fields.push(json_kv("name", t.name.as_str()));
    let desc = match &t.description {
        Option::Some(d) => json_kv("description", d.as_str()),
        Option::None => json_kv("description", ""),
    };
    fields.push(desc);
    proof {
        reveal_strlit("");
        assert(""@ =~= Seq::<char>::empty());
        assert(fields@.map_values(|f: String| f@) =~= seq![
            spec_kv("name"@, t@.name),
            spec_kv("description"@, desc_or_empty(t@.description)),
        ]);
    }
    json_obj(&fields)
}

/// Render the tool listing document: status, subject `tools`, the target,
/// elapsed time, the count, and one name/description item per tool.
pub fn list_tools_json(target: &str, elapsed_ms: u64, tools: &Vec<crate::schema::ToolDescriptor>)
    -> (r: String)
    ensures
        r@ == spec_obj(
            seq![
                spec_kv("status"@, "ok"@),
                spec_kv("subject"@, "tools"@),
                spec_kv("target"@, target@),
                spec_kv_raw("elapsed_ms"@, u64_text(elapsed_ms as int)),
                spec_kv_raw("count"@, u64_text(tools@.len() as int)),
                spec_kv_raw(
                    "tools"@,
                    spec_arr(
                        tools@.map_values(|t: crate::schema::ToolDescriptor| t@).map_values(
                            |t: crate::schema::ToolDescriptorModel| spec_tool_item_json(t),
                        ),
                    ),
                ),
            ],
        ),
{
    let ghost models = tools@.map_values(|t: crate::schema::ToolDescriptor| t@);
    let n = tools.len();
    let mut items: Vec<String> = Vec::new();
    let mut i: usize = 0;
    while i < n
        invariant
            0 <= i <= n,
            n == tools.len(),
            models == tools@.map_values(|t: crate::schema::ToolDescriptor| t@),
            items@.map_values(|f: String| f@) =~= models.subrange(0, i as int).map_values(
                |t: crate::schema::ToolDescriptorModel| spec_tool_item_json(t),
            ),
        decreases n - i,
    {
        let it = tool_item_json(&tools[i]);
        let ghost it_model = it@;
        let ghost before = items@.map_values(|f: String| f@);
        items.push(it);
        proof {
            assert(items@.map_values(|f: String| f@) =~= before.push(it_model));
            assert(models.subrange(0, i + 1) =~= models.subrange(0, i as int).push(
                models[i as int],
            ));
            assert(models.subrange(0, i + 1).map_values(
                |t: crate::schema::ToolDescriptorModel| spec_tool_item_json(t),
            ) =~= models.subrange(0, i as int).map_values(
                |t: crate::schema::ToolDescriptorModel| spec_tool_item_json(t),
            ).push(spec_tool_item_json(models[i as int])));
        }
        i = i + 1;
    }
    proof {
        assert(models.subrange(0, n as int) =~= models);
    }
    let arr = json_arr(&items);
    let count = crate::chars::u64_to_string(tools.len() as u64);
    let elapsed = crate::chars::u64_to_string(elapsed_ms);
    let mut fields: Vec<String> = Vec::new();
    fields.push(json_kv("status", "ok"));
    fields.push(json_kv("subject", "tools"));
    fields.push(json_kv("target", target));
    fields.push(json_kv_raw("elapsed_ms", elapsed.as_str()));
    fields.push(json_kv_raw("count", count.as_str()));
    fields.push(json_kv_raw("tools", arr.as_str()));
    proof {
        assert(fields@.map_values(|f: String| f@) =~= seq![
            spec_kv("status"@, "ok"@),
            spec_kv("subject"@, "tools"@),
            spec_kv("target"@, target@),
            spec_kv_raw("elapsed_ms"@, u64_text(elapsed_ms as int)),
            spec_kv_raw("count"@, u64_text(tools@.len() as int)),
            spec_kv_raw("tools"@, spec_arr(models.map_values(
                |t: crate::schema::ToolDescriptorModel| spec_tool_item_json(t),
            ))),
        ]);
    }
    json_obj(&fields)
}

/// Render an empty tool listing carrying a note: the shape used where no
/// target is given or the target is remote; the target reads `null` where
/// absent.
pub fn list_note_json(target: Option<&str>, note: &str) -> (r: String)
    ensures
        r@ == spec_obj(
            seq![
                spec_kv("status"@, "ok"@),
                spec_kv("subject"@, "tools"@),
                spec_kv_raw(
                    "target"@,
                    match target {
                        Some(t) => spec_quoted(t@),
                        None => "null"@,
                    },
                ),
                spec_kv_raw("count"@, "0"@),
                spec_kv_raw("tools"@, "[]"@),
                spec_kv("note"@, note@),
            ],
        ),
{
    let tv = json_opt_str(target);
    let mut fields: Vec<String> = Vec::new();
    fields.push(json_kv("status", "ok"));
    fields.push(json_kv("subject", "tools"));
    fields.push(json_kv_raw("target", tv.as_str()));
    fields.push(json_kv_raw("count", "0"));
    fields.push(json_kv_raw("tools", "[]"));
    fields.push(json_kv("note", note));
    proof {
        assert(fields@.map_values(|f: String| f@) =~= seq![
            spec_kv("status"@, "ok"@),
            spec_kv("subject"@, "tools"@),
            spec_kv_raw("target"@, match target {
                Some(t) => spec_quoted(t@),
                None => "null"@,
            }),
            spec_kv_raw("count"@, "0"@),
            spec_kv_raw("tools"@, "[]"@),
            spec_kv("note"@, note@),
        ]);
    }
    json_obj(&fields)
}

/// Render the placeholder document for a subject that is recognised but not
/// driven yet: zero items and a note.
pub fn placeholder_json(subject: &str, note: &str) -> (r: String)
    ensures
        r@ == spec_obj(
            seq![
                spec_kv("status"@, "ok"@),
                spec_kv("subject"@, subject@),
                spec_kv_raw("count"@, "0"@),
                spec_kv_raw("items"@, "[]"@),
                spec_kv("note"@, note@),
            ],
        ),
{
    let mut fields: Vec<String> = Vec::new();
    fields.push(json_kv("status", "ok"));
    fields.push(json_kv("subject", subject));
    fields.push(json_kv_raw("count", "0"));
    fields.push(json_kv_raw("items", "[]"));
    fields.push(json_kv("note", note));
    proof {
        assert(fields@.map_values(|f: String| f@) =~= seq![
            spec_kv("status"@, "ok"@),
            spec_kv("subject"@, subject@),
            spec_kv_raw("count"@, "0"@),
            spec_kv_raw("items"@, "[]"@),
            spec_kv("note"@, note@),
        ]);
    }
    json_obj(&fields)
}

/// Render the successful invocation document: the tool, the target, elapsed
/// time, the coerced arguments, and the call result — under `result` when
/// the raw payload was asked for, else under `result_summary`. The result
/// text must already be JSON.
pub fn exec_success_json(
    tool: &str,
    target: &str,
    elapsed_ms: u64,
    arguments: &Vec<(String, crate::schema::ArgValue)>,
    result_json: &str,
    raw: bool,
) -> (r: String)
    ensures
        r@ == spec_obj(
            seq![
                spec_kv("status"@, "ok"@),
                spec_kv("subject"@, "tool"@),
                spec_kv("tool"@, tool@),
                spec_kv("target"@, target@),
                spec_kv_raw("elapsed_ms"@, u64_text(elapsed_ms as int)),
                spec_kv_raw(
                    "arguments"@,
                    spec_arguments_json(
                        arguments@.map_values(
                            |e: (String, crate::schema::ArgValue)| (e.0@, e.1@),
                        ),
                    ),
                ),
                spec_kv_raw(
                    if raw {
                        "result"@
                    } else {
                        "result_summary"@
                    },
                    result_json@,
                ),
            ],
        ),
{
    let args = arguments_json(arguments);
    let elapsed = crate::chars::u64_to_string(elapsed_ms);
    let mut fields: Vec<String> = Vec::new();
    fields.push(json_kv("status", "ok"));
    fields.push(json_kv("subject", "tool"));
    fields.push(json_kv("tool", tool));
    fields.push(json_kv("target", target));
    fields.push(json_kv_raw("elapsed_ms", elapsed.as_str()));
    fields.push(json_kv_raw("arguments", args.as_str()));
    if raw {
        fields.push(json_kv_raw("result", result_json));
    } else {
        fields.push(json_kv_raw("result_summary", result_json));
    }
    proof {
        assert(fields@.map_values(|f: String| f@) =~= seq![
            spec_kv("status"@, "ok"@),
            spec_kv("subject"@, "tool"@),
            spec_kv("tool"@, tool@),
            spec_kv("target"@, target@),
            spec_kv_raw("elapsed_ms"@, u64_text(elapsed_ms as int)),
            spec_kv_raw("arguments"@, spec_arguments_json(arguments@.map_values(
                |e: (String, crate::schema::ArgValue)| (e.0@, e.1@),
            ))),
            spec_kv_raw(if raw {
                "result"@
            } else {
                "result_summary"@
            }, result_json@),
        ]);
    }
    json_obj(&fields)
}

/// Render one successful fuzzing record, one line per request: its 0-based
/// index, the total, the word, the tool, target, elapsed time, arguments,
/// and the result under `result` or `result_summary`.
pub fn fuzz_success_json(
    index: u64,
    total: u64,
    word: &str,
    tool: &str,
    target: &str,
    elapsed_ms: u64,
    arguments: &Vec<(String, crate::schema::ArgValue)>,
    result_json: &str,
    raw: bool,
) -> (r: String)
    ensures
        r@ == spec_obj(
            seq![
                spec_kv("status"@, "ok"@),
                spec_kv_raw("request_index"@, u64_text(index as int)),
                spec_kv_raw("total_requests"@, u64_text(total as int)),
                spec_kv("word"@, word@),
                spec_kv("tool"@, tool@),
                spec_kv("target"@, target@),
                spec_kv_raw("elapsed_ms"@, u64_text(elapsed_ms as int)),
                spec_kv_raw(
                    "arguments"@,
                    spec_arguments_json(
                        arguments@.map_values(
                            |e: (String, crate::schema::ArgValue)| (e.0@, e.1@),
                        ),
                    ),
                ),
                spec_kv_raw(
                    if raw {
                        "result"@
                    } else {
                        "result_summary"@
                    },
                    result_json@,
                ),
            ],
        ),
{
    let args = arguments_json(arguments);
    let idx = crate::chars::u64_to_string(index);
    let tot = crate::chars::u64_to_string(total);
    let elapsed = crate::chars::u64_to_string(elapsed_ms);
    let mut fields: Vec<String> = Vec::new();
    fields.push(json_kv("status", "ok"));
    fields.push(json_kv_raw("request_index", idx.as_str()));
    fields.push(json_kv_raw("total_requests", tot.as_str()));
    fields.push(json_kv("word", word));
    fields.push(json_kv("tool", tool));
    fields.push(json_kv("target", target));
    fields.push(json_kv_raw("elapsed_ms", elapsed.as_str()));
    fields.push(json_kv_raw("arguments", args.as_str()));
    if raw {
        fields.push(json_kv_raw("result", result_json));
    } else {
        fields.push(json_kv_raw("result_summary", result_json));
    }
    proof {
        assert(fields@.map_values(|f: String| f@) =~= seq![
            spec_kv("status"@, "ok"@),
            spec_kv_raw("request_index"@, u64_text(index as int)),
            spec_kv_raw("total_requests"@, u64_text(total as int)),
            spec_kv("word"@, word@),
            spec_kv("tool"@, tool@),
            spec_kv("target"@, target@),
            spec_kv_raw("elapsed_ms"@, u64_text(elapsed_ms as int)),
            spec_kv_raw("arguments"@, spec_arguments_json(arguments@.map_values(
                |e: (String, crate::schema::ArgValue)| (e.0@, e.1@),
            ))),
            spec_kv_raw(if raw {
                "result"@
            } else {
                "result_summary"@
            }, result_json@),
        ]);
    }
    json_obj(&fields)
}

/// Render one failed fuzzing record: its index, the total, the word, and
/// the error text.
pub fn fuzz_error_json(index: u64, total: u64, word: &str, error_msg: &str) -> (r: String)
    ensures
        r@ == spec_obj(
            seq![
                spec_kv("status"@, "error"@),
                spec_kv_raw("request_index"@, u64_text(index as int)),
                spec_kv_raw("total_requests"@, u64_text(total as int)),
                spec_kv("word"@, word@),
                spec_kv("error"@, error_msg@),
            ],
        ),
{
    let idx = crate::chars::u64_to_string(index);
    let tot = crate::chars::u64_to_string(total);
    let mut fields: Vec<String> = Vec::new();
    fields.push(json_kv("status", "error"));
    fields.push(json_kv_raw("request_index", idx.as_str()));
    fields.push(json_kv_raw("total_requests", tot.as_str()));
    fields.push(json_kv("word", word));
    fields.push(json_kv("error", error_msg));
    proof {
        assert(fields@.map_values(|f: String| f@) =~= seq![
            spec_kv("status"@, "error"@),
            spec_kv_raw("request_index"@, u64_text(index as int)),
            spec_kv_raw("total_requests"@, u64_text(total as int)),
            spec_kv("word"@, word@),
            spec_kv("error"@, error_msg@),
        ]);
    }
    json_obj(&fields)
}

/// One parameter row of a tool, as JSON: name, type, whether required, and
/// description.
pub fn param_entry_json(name: &str, ptype: &str, required: bool, desc: &str) -> (r: String)
    ensures
        r@ == spec_obj(
            seq![
                spec_kv("name"@, name@),
                spec_kv("type"@, ptype@),
                spec_kv_raw(
                    "required"@,
                    if required {
                        "true"@
                    } else {
                        "false"@
                    },
                ),
                spec_kv("description"@, desc@),
            ],
        ),
{
    let mut fields: Vec<String> = Vec::new();
    fields.push(json_kv("name", name));
    fields.push(json_kv("type", ptype));
    if required {
        fields.push(json_kv_raw("required", "true"));
    } else {
        fields.push(json_kv_raw("required", "false"));
    }
    fields.push(json_kv("description", desc));
    proof {
        assert(fields@.map_values(|f: String| f@) =~= seq![
            spec_kv("name"@, name@),
            spec_kv("type"@, ptype@),
            spec_kv_raw("required"@, if required {
                "true"@
            } else {
                "false"@
            }),
            spec_kv("description"@, desc@),
        ]);
    }
    json_obj(&fields)
}

/// Render the single-tool document: status, subject `tool`, target, elapsed
/// time, the resolved name, the tool's own JSON (already rendered by the
/// caller), and its parameter rows.
pub fn get_tool_json(
    target: &str,
    elapsed_ms: u64,
    name: &str,
    tool_raw_json: &str,
    params_json: &str,
) -> (r: String)
    ensures
        r@ == spec_obj(
            seq![
                spec_kv("status"@, "ok"@),
                spec_kv("subject"@, "tool"@),
                spec_kv("target"@, target@),
                spec_kv_raw("elapsed_ms"@, u64_text(elapsed_ms as int)),
                spec_kv("name"@, name@),
                spec_kv_raw("tool"@, tool_raw_json@),
                spec_kv_raw("parameters"@, params_json@),
            ],
        ),
{
    let elapsed = crate::chars::u64_to_string(elapsed_ms);
    let mut fields: Vec<String> = Vec::new();
    fields.push(json_kv("status", "ok"));
    fields.push(json_kv("subject", "tool"));
    fields.push(json_kv("target", target));
    fields.push(json_kv_raw("elapsed_ms", elapsed.as_str()));
    fields.push(json_kv("name", name));
    fields.push(json_kv_raw("tool", tool_raw_json));
    fields.push(json_kv_raw("parameters", params_json));
    proof {
        assert(fields@.map_values(|f: String| f@) =~= seq![
            spec_kv("status"@, "ok"@),
            spec_kv("subject"@, "tool"@),
            spec_kv("target"@, target@),
            spec_kv_raw("elapsed_ms"@, u64_text(elapsed_ms as int)),
            spec_kv("name"@, name@),
            spec_kv_raw("tool"@, tool_raw_json@),
            spec_kv_raw("parameters"@, params_json@),
        ]);
    }
    json_obj(&fields)
}

/// Render the error document for a tool that was not found: the message,
/// the requested name, the subject and the target.
pub fn tool_not_found_json(requested: &str, target: &str) -> (r: String)
    ensures
        r@ == spec_obj(
            seq![
                spec_kv("status"@, "error"@),
                spec_kv("error"@, "tool not found"@),
                spec_kv("requested"@, requested@),
                spec_kv("subject"@, "tool"@),
                spec_kv("target"@, target@),
            ],
        ),
{
    let mut fields: Vec<String> = Vec::new();
    fields.push(json_kv("status", "error"));
    fields.push(json_kv("error", "tool not found"));
    fields.push(json_kv("requested", requested));
    fields.push(json_kv("subject", "tool"));
    fields.push(json_kv("target", target));
    proof {
        assert(fields@.map_values(|f: String| f@) =~= seq![
            spec_kv("status"@, "error"@),
            spec_kv("error"@, "tool not found"@),
            spec_kv("requested"@, requested@),
            spec_kv("subject"@, "tool"@),
            spec_kv("target"@, target@),
        ]);
    }
    json_obj(&fields)
}

proof fn lemma_join_prefix_shift(fields: Seq<Seq<char>>, i: int)
    requires
        fields.len() >= 2,
        2 <= i <= fields.len(),
    ensures
        spec_join_prefix(fields, i) == fields[0] + seq![','] + spec_join_prefix(
            fields.drop_first(),
            i - 1,
        ),
    decreases i,
{
    let tail = fields.drop_first();
    if i == 2 {
        assert(spec_join_prefix(fields, 2) == spec_join_prefix(fields, 1) + seq![','] + fields[1]);
        assert(spec_join_prefix(tail, 1) == tail[0]);
        assert(tail[0] == fields[1]);
        assert(fields[0] + seq![','] + tail[0] =~= spec_join_prefix(fields, 1) + seq![',']
            + fields[1]);
    } else {
        lemma_join_prefix_shift(fields, i - 1);
        assert(tail[i - 2] == fields[i - 1]);
        assert((fields[0] + seq![','] + spec_join_prefix(tail, i - 2)) + seq![','] + tail[i - 2]
            =~= fields[0] + seq![','] + (spec_join_prefix(tail, i - 2) + seq![','] + tail[i - 2]));
    }
}

} // verus!
