//! Character-level text helpers: ASCII-whitespace trimming, case-insensitive
//! comparison, decimal integer parsing, separator splitting, and literal
//! substring replacement, each specified over `Seq<char>`.

use vstd::prelude::*;

verus! {

/// ASCII whitespace, the characters stripped by trimming.
pub open spec fn is_space_char(c: char) -> bool {
    c == ' ' || c == '\t' || c == '\n' || c == '\r'
}

pub open spec fn trimmed_front(s: Seq<char>) -> Seq<char>
    decreases s.len(),
{
    if s.len() > 0 && is_space_char(s[0]) {
        trimmed_front(s.drop_first())
    } else {
        s
    }
}

pub open spec fn trimmed_back(s: Seq<char>) -> Seq<char>
    decreases s.len(),
{
    if s.len() > 0 && is_space_char(s[s.len() - 1]) {
        trimmed_back(s.drop_last())
    } else {
        s
    }
}

/// The string with ASCII whitespace removed from both ends.
pub open spec fn trimmed(s: Seq<char>) -> Seq<char> {
    trimmed_back(trimmed_front(s))
}

proof fn lemma_trimmed_front_at(s: Seq<char>, i: int)
    requires
        0 <= i <= s.len(),
        forall|k: int| 0 <= k < i ==> is_space_char(s[k]),
        i < s.len() ==> !is_space_char(s[i]),
    ensures
        trimmed_front(s) =~= s.subrange(i, s.len() as int),
    decreases i,
{
    if i == 0 {
        if s.len() > 0 && is_space_char(s[0]) {
            assert(false);
        }
        assert(trimmed_front(s) =~= s.subrange(0, s.len() as int));
    } else {
        let t = s.drop_first();
        assert(forall|k: int| 0 <= k < i - 1 ==> is_space_char(t[k]));
        lemma_trimmed_front_at(t, i - 1);
        assert(t.subrange(i - 1, t.len() as int) =~= s.subrange(i, s.len() as int));
    }
}

proof fn lemma_trimmed_back_at(s: Seq<char>, j: int)
    requires
        0 <= j <= s.len(),
        forall|k: int| j <= k < s.len() ==> is_space_char(s[k]),
        j > 0 ==> !is_space_char(s[j - 1]),
    ensures
        trimmed_back(s) =~= s.subrange(0, j),
    decreases s.len(),
{
    if j == s.len() {
        if s.len() > 0 && is_space_char(s[s.len() - 1]) {
            assert(false);
        }
        assert(trimmed_back(s) =~= s.subrange(0, j));
    } else {
        let t = s.drop_last();
        assert(forall|k: int| j <= k < t.len() ==> is_space_char(t[k]));
        lemma_trimmed_back_at(t, j);
        assert(t.subrange(0, j) =~= s.subrange(0, j));
    }
}

/// Strip ASCII whitespace from both ends of a string.
pub fn trim_str(s: &str) -> (r: String)
    ensures
        r@ == trimmed(s@),
{
    let n = s.unicode_len();
    let mut a: usize = 0;
    while a < n && is_space(s.get_char(a))
        invariant
            0 <= a <= n,
            n == s@.len(),
            forall|k: int| 0 <= k < a ==> is_space_char(s@[k]),
        decreases n - a,
    {
        a = a + 1;
    }
    proof {
        lemma_trimmed_front_at(s@, a as int);
    }
    let mut b: usize = n;
    while b > a && is_space(s.get_char(b - 1))
        invariant
            a <= b <= n,
            n == s@.len(),
            forall|k: int| b <= k < n ==> is_space_char(s@[k]),
        decreases b,
    {
        b = b - 1;
    }
    let ghost front = s@.subrange(a as int, n as int);
    proof {
        if b > a {
            assert(!is_space_char(s@[b - 1]));
        }
        assert(forall|k: int| b - a <= k < front.len() ==> is_space_char(#[trigger] front[k]));
        lemma_trimmed_back_at(front, b - a);
        assert(front.subrange(0, b - a) =~= s@.subrange(a as int, b as int));
    }
    let piece = s.substring_char(a, b);
    piece.to_owned()
}

/// Executable test for ASCII whitespace.
pub fn is_space(c: char) -> (r: bool)
    ensures
        r == is_space_char(c),
{
    c == ' ' || c == '\t' || c == '\n' || c == '\r'
}

/// The character's code, with ASCII capitals folded to lower case.
pub open spec fn lower_code(c: char) -> u32 {
    if 65 <= c as u32 && c as u32 <= 90 {
        (c as u32 + 32) as u32
    } else {
        c as u32
    }
}

/// Equality up to ASCII case folding.
pub open spec fn eq_ignore_case_seq(a: Seq<char>, b: Seq<char>) -> bool {
    a.len() == b.len() && forall|i: int| 0 <= i < a.len() ==> lower_code(a[i]) == lower_code(b[i])
}

fn lower_code_exec(c: char) -> (r: u32)
    ensures
        r == lower_code(c),
{
    let v = c as u32;
    if 65 <= v && v <= 90 {
        v + 32
    } else {
        v
    }
}

/// Compare two strings for equality, ignoring ASCII case.
pub fn eq_ignore_case(a: &str, b: &str) -> (r: bool)
    ensures
        r == eq_ignore_case_seq(a@, b@),
{
    let na = a.unicode_len();
    let nb = b.unicode_len();
    if na != nb {
        return false;
    }
    let mut i: usize = 0;
    while i < na
        invariant
            0 <= i <= na,
            na == a@.len(),
            na == b@.len(),
            forall|k: int| 0 <= k < i ==> lower_code(a@[k]) == lower_code(b@[k]),
        decreases na - i,
    {
        if lower_code_exec(a.get_char(i)) != lower_code_exec(b.get_char(i)) {
            return false;
        }
        i = i + 1;
    }
    true
}

/// An ASCII decimal digit.
pub open spec fn is_digit(c: char) -> bool {
    48 <= c as u32 && c as u32 <= 57
}

pub open spec fn digit_val(c: char) -> int {
    c as u32 - 48
}

pub open spec fn all_digits(s: Seq<char>) -> bool {
    forall|i: int| 0 <= i < s.len() ==> is_digit(s[i])
}

/// The value of a string of decimal digits.
pub open spec fn digits_val(s: Seq<char>) -> int
    decreases s.len(),
{
    if s.len() == 0 {
        0
    } else {
        digits_val(s.drop_last()) * 10 + digit_val(s.last())
    }
}

/// The integer denoted by the text under Rust's `i64` grammar: an optional
/// sign followed by one or more ASCII digits, unbounded.
pub open spec fn int_text_value(s: Seq<char>) -> Option<int> {
    if s.len() == 0 {
        None
    } else if s[0] == '+' || s[0] == '-' {
        let rest = s.subrange(1, s.len() as int);
        if rest.len() > 0 && all_digits(rest) {
            if s[0] == '-' {
                Some(-digits_val(rest))
            } else {
                Some(digits_val(rest))
            }
        } else {
            None
        }
    } else {
        if all_digits(s) {
            Some(digits_val(s))
        } else {
            None
        }
    }
}

/// The text read as a 64-bit signed integer; `None` where the grammar fails
/// or the value overflows.
pub open spec fn i64_of_text(s: Seq<char>) -> Option<i64> {
    match int_text_value(s) {
        Some(v) => if i64::MIN <= v && v <= i64::MAX {
            Some(v as i64)
        } else {
            None
        },
        None => None,
    }
}

proof fn lemma_digits_val_nonneg(s: Seq<char>)
    requires
        all_digits(s),
    ensures
        digits_val(s) >= 0,
    decreases s.len(),
{
    if s.len() > 0 {
        assert(all_digits(s.drop_last()));
        lemma_digits_val_nonneg(s.drop_last());
        assert(digit_val(s.last()) >= 0);
    }
}

proof fn lemma_digits_val_push(s: Seq<char>, c: char)
    ensures
        digits_val(s.push(c)) == digits_val(s) * 10 + digit_val(c),
{
    assert(s.push(c).drop_last() =~= s);
    assert(s.push(c).last() == c);
}

proof fn lemma_digits_val_grows(s: Seq<char>, i: int)
    requires
        all_digits(s),
        0 <= i <= s.len(),
    ensures
        digits_val(s) >= digits_val(s.subrange(0, i)),
    decreases s.len() - i,
{
    if i < s.len() {
        let p = s.subrange(0, i);
        let q = s.subrange(0, i + 1);
        assert(q =~= p.push(s[i]));
        lemma_digits_val_push(p, s[i]);
        assert(all_digits(p));
        lemma_digits_val_nonneg(p);
        assert(digits_val(q) == digits_val(p) * 10 + digit_val(s[i]));
        assert(digits_val(p) * 10 >= digits_val(p));
        lemma_digits_val_grows(s, i + 1);
        assert(s.subrange(0, s.len() as int) =~= s);
    } else {
        assert(s.subrange(0, i) =~= s);
    }
}

fn is_digit_exec(c: char) -> (r: bool)
    ensures
        r == is_digit(c),
{
    let v = c as u32;
    48 <= v && v <= 57
}

/// Parse the digit run `s[from..]` as an unsigned magnitude bounded by
/// `limit`. Returns `None` when a non-digit appears, the run is empty, or the
/// value exceeds `limit`.
fn parse_magnitude(s: &str, from: usize, limit: u64) -> (r: Option<u64>)
    requires
        from < s@.len(),
        limit >= 9,
    ensures
        ({
            let rest = s@.subrange(from as int, s@.len() as int);
            match r {
                Some(v) => all_digits(rest) && digits_val(rest) == v as int && v <= limit,
                None => !all_digits(rest) || digits_val(rest) > limit,
            }
        }),
{
    let ghost rest = s@.subrange(from as int, s@.len() as int);
    let n = s.unicode_len();
    let mut i: usize = from;
    let mut mag: u64 = 0;
    while i < n
        invariant
            from <= i <= n,
            n == s@.len(),
            from < n,
            rest == s@.subrange(from as int, s@.len() as int),
            all_digits(rest.subrange(0, i - from)),
            digits_val(rest.subrange(0, i - from)) == mag as int,
            mag <= limit,
            limit >= 9,
        decreases n - i,
    {
        let c = s.get_char(i);
        if !is_digit_exec(c) {
            proof {
                assert(rest[i - from] == s@[i as int]);
                assert(!is_digit(rest[i - from]));
            }
            return None;
        }
        let d: u64 = (c as u32 - 48) as u64;
        proof {
            assert(d <= 9);
            let p = rest.subrange(0, i - from);
            let q = rest.subrange(0, i + 1 - from);
            assert(q =~= p.push(rest[i - from]));
            lemma_digits_val_push(p, rest[i - from]);
            assert(rest[i - from] == s@[i as int]);
        }
        if mag > (limit - d) / 10 {
            proof {
                let q = rest.subrange(0, i + 1 - from);
                assert(digits_val(q) == mag as int * 10 + d);
                assert(mag as int * 10 + d > limit as int) by (nonlinear_arith)
                    requires
                        mag as int > (limit as int - d) / 10,
                        0 <= d <= 9,
                        limit >= 0,
                ;
                if all_digits(rest) {
                    lemma_digits_val_grows(rest, i + 1 - from);
                }
            }
            return None;
        }
        mag = mag * 10 + d;
        i = i + 1;
    }
    proof {
        assert(rest.subrange(0, n - from) =~= rest);
    }
    Some(mag)
}

/// Parse a string as a 64-bit signed integer, exactly as the `i64` grammar
/// reads it: optional sign, then one or more ASCII digits.
pub fn parse_i64(s: &str) -> (r: Option<i64>)
    ensures
        r == i64_of_text(s@),
{
    let n = s.unicode_len();
    if n == 0 {
        return None;
    }
    let first = s.get_char(0);
    if first == '+' || first == '-' {
        if n == 1 {
            proof {
                assert(s@.subrange(1, s@.len() as int).len() == 0);
            }
            return None;
        }
        if first == '-' {
            match parse_magnitude(s, 1, 9223372036854775808u64) {
                Some(mag) => {
                    proof {
                        assert(int_text_value(s@) == Some(-digits_val(s@.subrange(1, s@.len() as int))));
                    }
                    if mag == 9223372036854775808u64 {
                        Some(i64::MIN)
                    } else {
                        Some(-(mag as i64))
                    }
                },
                None => {
                    proof {
                        let rest = s@.subrange(1, s@.len() as int);
                        if all_digits(rest) {
                            assert(digits_val(rest) > 9223372036854775808);
                        }
                    }
                    None
                },
            }
        } else {
            match parse_magnitude(s, 1, 9223372036854775807u64) {
                Some(mag) => Some(mag as i64),
                None => None,
            }
        }
    } else {
        proof {
            assert(s@.subrange(0, s@.len() as int) =~= s@);
        }
        match parse_magnitude(s, 0, 9223372036854775807u64) {
            Some(mag) => Some(mag as i64),
            None => None,
        }
    }
}

/// Whether the text denotes a finite JSON number (and so a finite 64-bit
/// float); a function of the text alone.
pub uninterp spec fn is_finite_number_text(s: Seq<char>) -> bool;

/// Relies on `serde_json::from_str::<serde_json::Number>`: whether the text
/// parses as a JSON number. Such numbers are always finite — the parser
/// rejects infinities, NaN, and out-of-range values. The numeric value never
/// leaves this function; callers that need it reparse the text at the output
/// boundary.
#[verifier::external_body]
pub fn parses_as_finite_number(raw: &str) -> (r: bool)
    ensures
        r == is_finite_number_text(raw@),
{
    serde_json::from_str::<serde_json::Number>(raw).is_ok()
}

/// The decimal digit character for a value below ten.
pub open spec fn dec_digit_char(d: int) -> char {
    if d == 0 {
        '0'
    } else if d == 1 {
        '1'
    } else if d == 2 {
        '2'
    } else if d == 3 {
        '3'
    } else if d == 4 {
        '4'
    } else if d == 5 {
        '5'
    } else if d == 6 {
        '6'
    } else if d == 7 {
        '7'
    } else if d == 8 {
        '8'
    } else {
        '9'
    }
}

/// The decimal text of a non-negative integer, without sign or padding.
pub open spec fn u64_text(n: int) -> Seq<char>
    decreases n,
{
    if n < 10 {
        seq![dec_digit_char(n)]
    } else {
        u64_text(n / 10).push(dec_digit_char(n % 10))
    }
}

/// The decimal text of a signed integer: a `-` before the magnitude where
/// negative.
pub open spec fn i64_text(v: int) -> Seq<char> {
    if v < 0 {
        seq!['-'] + u64_text(-v)
    } else {
        u64_text(v)
    }
}

fn digit_str(d: u64) -> (r: &'static str)
    requires
        d < 10,
    ensures
        r@ == seq![dec_digit_char(d as int)],
{
    proof {
        reveal_strlit("0");
        reveal_strlit("1");
        reveal_strlit("2");
        reveal_strlit("3");
        reveal_strlit("4");
        reveal_strlit("5");
        reveal_strlit("6");
        reveal_strlit("7");
        reveal_strlit("8");
        reveal_strlit("9");
        assert("0"@ =~= seq!['0']);
        assert("1"@ =~= seq!['1']);
        assert("2"@ =~= seq!['2']);
        assert("3"@ =~= seq!['3']);
        assert("4"@ =~= seq!['4']);
        assert("5"@ =~= seq!['5']);
        assert("6"@ =~= seq!['6']);
        assert("7"@ =~= seq!['7']);
        assert("8"@ =~= seq!['8']);
        assert("9"@ =~= seq!['9']);
    }
    match d {
        0 => "0",
        1 => "1",
        2 => "2",
        3 => "3",
        4 => "4",
        5 => "5",
        6 => "6",
        7 => "7",
        8 => "8",
        _ => "9",
    }
}

/// Render a non-negative integer as decimal text.
pub fn u64_to_string(n: u64) -> (r: String)
    ensures
        r@ == u64_text(n as int),
    decreases n,
{
    if n < 10 {
        digit_str(n).to_owned()
    } else {
        let mut s = u64_to_string(n / 10);
        s.append(digit_str(n % 10));
        proof {
            assert(u64_text(n as int / 10).push(dec_digit_char(n as int % 10)) =~= u64_text(
                n as int / 10,
            ) + seq![dec_digit_char(n as int % 10)]);
        }
        s
    }
}

/// Render a signed integer as decimal text.
pub fn i64_to_string(v: i64) -> (r: String)
    ensures
        r@ == i64_text(v as int),
{
    if v >= 0 {
        u64_to_string(v as u64)
    } else {
        let mag: u64 = ((-(v + 1)) as u64) + 1;
        proof {
            assert(mag as int == -(v as int));
        }
        let mut s = String::new();
        s.append("-");
        let tail = u64_to_string(mag);
        s.append(tail.as_str());
        proof {
            reveal_strlit("-");
            assert("-"@ =~= seq!['-']);
            assert(Seq::<char>::empty() + "-"@ + u64_text(mag as int) =~= seq!['-'] + u64_text(
                -(v as int),
            ));
        }
        s
    }
}

/// Index of the first occurrence of `c` in `s`.
pub open spec fn find_char(s: Seq<char>, c: char) -> Option<int>
    decreases s.len(),
{
    if s.len() == 0 {
        None
    } else if s[0] == c {
        Some(0)
    } else {
        match find_char(s.drop_first(), c) {
            Some(i) => Some(i + 1),
            None => None,
        }
    }
}

pub proof fn lemma_find_char_at(s: Seq<char>, c: char, i: int)
    requires
        0 <= i < s.len(),
        s[i] == c,
        forall|k: int| 0 <= k < i ==> s[k] != c,
    ensures
        find_char(s, c) == Some(i),
    decreases i,
{
    if i > 0 {
        lemma_find_char_at(s.drop_first(), c, i - 1);
    }
}

pub proof fn lemma_find_char_none(s: Seq<char>, c: char)
    requires
        forall|k: int| 0 <= k < s.len() ==> s[k] != c,
    ensures
        find_char(s, c) is None,
    decreases s.len(),
{
    if s.len() > 0 {
        lemma_find_char_none(s.drop_first(), c);
    }
}

pub proof fn lemma_find_char_bounds(s: Seq<char>, c: char)
    ensures
        match find_char(s, c) {
            Some(i) => 0 <= i < s.len() && s[i] == c,
            None => true,
        },
    decreases s.len(),
{
    if s.len() > 0 && s[0] != c {
        lemma_find_char_bounds(s.drop_first(), c);
    }
}

/// The segments of `s` between occurrences of the separator `c`, in order;
/// a string without the separator is one segment, so the result is never
/// empty.
pub open spec fn split_char(s: Seq<char>, c: char) -> Seq<Seq<char>>
    decreases s.len(),
    via split_char_dec
{
    match find_char(s, c) {
        None => seq![s],
        Some(i) => seq![s.subrange(0, i)] + split_char(s.subrange(i + 1, s.len() as int), c),
    }
}

#[via_fn]
proof fn split_char_dec(s: Seq<char>, c: char) {
    lemma_find_char_bounds(s, c);
}

/// Find the first occurrence of `c` at or after position `from`.
fn find_char_from(s: &str, c: char, from: usize) -> (r: Option<usize>)
    requires
        from <= s@.len(),
    ensures
        match r {
            Some(i) => from <= i < s@.len() && s@[i as int] == c && forall|k: int|
                from <= k < i ==> s@[k] != c,
            None => forall|k: int| from <= k < s@.len() ==> s@[k] != c,
        },
{
    let n = s.unicode_len();
    let mut i: usize = from;
    while i < n
        invariant
            from <= i <= n,
            n == s@.len(),
            forall|k: int| from <= k < i ==> s@[k] != c,
        decreases n - i,
    {
        if s.get_char(i) == c {
            return Some(i);
        }
        i = i + 1;
    }
    None
}

/// Split `s` on the separator and trim each segment, as array coercion does.
pub fn split_and_trim(s: &str, sep: char) -> (r: Vec<String>)
    ensures
        r@.map_values(|p: String| p@) =~= split_char(s@, sep).map_values(|p: Seq<char>| trimmed(p)),
{
    let n = s.unicode_len();
    let mut parts: Vec<String> = Vec::new();
    let mut start: usize = 0;
    proof {
        assert(s@.subrange(0, n as int) =~= s@);
    }
    loop
        invariant_except_break
            0 <= start <= n,
            n == s@.len(),
            parts@.map_values(|p: String| p@) + split_char(
                s@.subrange(start as int, n as int),
                sep,
            ).map_values(|p: Seq<char>| trimmed(p)) =~= split_char(s@, sep).map_values(
                |p: Seq<char>| trimmed(p),
            ),
        ensures
            parts@.map_values(|p: String| p@) =~= split_char(s@, sep).map_values(
                |p: Seq<char>| trimmed(p),
            ),
        decreases n - start,
    {
        let ghost rem = s@.subrange(start as int, n as int);
        match find_char_from(s, sep, start) {
            Some(j) => {
                proof {
                    assert(forall|k: int| 0 <= k < j - start ==> rem[k] != sep);
                    assert(rem[j - start] == sep);
                    lemma_find_char_at(rem, sep, j - start);
                    assert(rem.subrange(0, j - start) =~= s@.subrange(start as int, j as int));
                    assert(rem.subrange(j - start + 1, rem.len() as int) =~= s@.subrange(
                        j + 1,
                        n as int,
                    ));
                }
                let piece = s.substring_char(start, j);
                let t = trim_str(piece);
                parts.push(t);
                start = j + 1;
            },
            None => {
                proof {
                    assert(forall|k: int| 0 <= k < rem.len() ==> rem[k] != sep);
                    lemma_find_char_none(rem, sep);
                    assert(split_char(rem, sep) =~= seq![rem]);
                }
                let piece = s.substring_char(start, n);
                let t = trim_str(piece);
                parts.push(t);
                break;
            },
        }
    }
    parts
}

/// `s` with every occurrence of `pat` replaced by `to`, scanning left to
/// right without overlap; an empty pattern replaces nothing.
pub open spec fn replace_all(s: Seq<char>, pat: Seq<char>, to: Seq<char>) -> Seq<char>
    decreases s.len(),
{
    if pat.len() == 0 || s.len() < pat.len() {
        s
    } else if s.subrange(0, pat.len() as int) == pat {
        to + replace_all(s.subrange(pat.len() as int, s.len() as int), pat, to)
    } else {
        seq![s[0]] + replace_all(s.drop_first(), pat, to)
    }
}

/// Whether `pat` occurs in `s` starting at position `at`.
fn matches_at(s: &str, pat: &str, at: usize) -> (r: bool)
    requires
        at + pat@.len() <= s@.len(),
    ensures
        r == (s@.subrange(at as int, at + pat@.len()) == pat@),
{
    let n = s.unicode_len();
    let m = pat.unicode_len();
    let mut k: usize = 0;
    while k < m
        invariant
            0 <= k <= m,
            m == pat@.len(),
            n == s@.len(),
            at + m <= n,
            forall|j: int| 0 <= j < k ==> s@[at + j] == pat@[j],
        decreases m - k,
    {
        if s.get_char(at + k) != pat.get_char(k) {
            proof {
                assert(s@.subrange(at as int, at + pat@.len())[k as int] != pat@[k as int]);
            }
            return false;
        }
        k = k + 1;
    }
    proof {
        assert(s@.subrange(at as int, at + pat@.len()) =~= pat@);
    }
    true
}

/// Replace every occurrence of `pat` in `s` by `to`, scanning left to right.
pub fn replace_literal(s: &str, pat: &str, to: &str) -> (r: String)
    ensures
        r@ == replace_all(s@, pat@, to@),
{
    let n = s.unicode_len();
    let m = pat.unicode_len();
    let mut out = String::new();
    if m == 0 {
        let whole = s.substring_char(0, n);
        out.append(whole);
        proof {
            assert(out@ =~= replace_all(s@, pat@, to@));
        }
        return out;
    }
    let mut i: usize = 0;
    proof {
        assert(s@.subrange(0, n as int) =~= s@);
    }
    while i < n
        invariant
            0 <= i <= n,
            n == s@.len(),
            m == pat@.len(),
            m >= 1,
            out@ + replace_all(s@.subrange(i as int, n as int), pat@, to@) =~= replace_all(
                s@,
                pat@,
                to@,
            ),
        decreases n - i,
    {
        let ghost rem = s@.subrange(i as int, n as int);
        if m <= n - i && matches_at(s, pat, i) {
            proof {
                assert(rem.subrange(0, m as int) =~= s@.subrange(i as int, i + m));
                assert(rem.subrange(m as int, rem.len() as int) =~= s@.subrange(
                    i + m,
                    n as int,
                ));
            }
            out.append(to);
            i = i + m;
        } else {
            proof {
                if i + m <= n {
                    assert(rem.subrange(0, m as int) =~= s@.subrange(i as int, i + m));
                }
                assert(rem.drop_first() =~= s@.subrange(i + 1, n as int));
                assert(seq![rem[0]] =~= s@.subrange(i as int, i + 1));
            }
            let one = s.substring_char(i, i + 1);
            out.append(one);
            i = i + 1;
        }
    }
    proof {
        assert(replace_all(s@.subrange(n as int, n as int), pat@, to@)
            =~= Seq::<char>::empty());
    }
    out
}

} // verus!
