//! Human-output formatting: style options, ANSI colouring, emoji tags,
//! ANSI-aware width measurement, wrapping, truncation, boxed headers and
//! tables. Machine (JSON) output never goes through this module.

use vstd::prelude::*;

verus! {

/// Style decisions for human output. Detection from the environment happens
/// at the program boundary; the library only consumes the result.
#[derive(Debug, Clone)]
pub struct StyleOptions {
    pub use_color: bool,
    pub use_emoji: bool,
    pub term_width: usize,
    pub box_style: BoxStyle,
    pub padding: usize,
}

/// The box-drawing character set used for headers.
#[derive(Debug, Clone, Copy, PartialEq, Eq, Structural)]
pub enum BoxStyle {
    Light,
    Rounded,
}

impl StyleOptions {
    /// The defaults used when no environment is consulted: colour and emoji
    /// on, a width of 100, light boxes, one space of padding.
    pub fn plain() -> (r: StyleOptions)
        ensures
            r.use_color,
            r.use_emoji,
            r.term_width == 100,
            r.box_style == BoxStyle::Light,
            r.padding == 1,
    {
        StyleOptions {
            use_color: true,
            use_emoji: true,
            term_width: 100,
            box_style: BoxStyle::Light,
            padding: 1,
        }
    }
}

/// The roles text can be coloured as.
#[derive(Debug, Clone, Copy, PartialEq, Eq, Structural)]
pub enum Role {
    Primary,
    Secondary,
    Accent,
    Success,
    Warning,
    Error,
    Dim,
    Invert,
    Bold,
}

/// The ANSI code rendered for each role.
pub open spec fn spec_role_code(role: Role) -> Seq<char> {
    match role {
        Role::Primary => "38;5;45"@,
        Role::Secondary => "38;5;250"@,
        Role::Accent => "38;5;213"@,
        Role::Success => "38;5;82"@,
        Role::Warning => "38;5;214"@,
        Role::Error => "38;5;196"@,
        Role::Dim => "2"@,
        Role::Invert => "7"@,
        Role::Bold => "1"@,
    }
}

/// Colour text for a role: the text unchanged where colour is off, else the
/// text between the role's ANSI code and a reset.
pub fn color(role: Role, text: &str, style: &StyleOptions) -> (r: String)
    ensures
        !style.use_color ==> r@ == text@,
        style.use_color ==> r@ == "\u{1b}["@ + spec_role_code(role) + "m"@ + text@ + "\u{1b}[0m"@,
{
    if !style.use_color {
        return text.to_owned();
    }
    let code: &'static str = match role {
        Role::Primary => "38;5;45",
        Role::Secondary => "38;5;250",
        Role::Accent => "38;5;213",
        Role::Success => "38;5;82",
        Role::Warning => "38;5;214",
        Role::Error => "38;5;196",
        Role::Dim => "2",
        Role::Invert => "7",
        Role::Bold => "1",
    };
    let mut out = String::new();
    out.append("\u{1b}[");
    out.append(code);
    out.append("m");
    out.append(text);
    out.append("\u{1b}[0m");
    proof {
        assert(out@ =~= "\u{1b}["@ + spec_role_code(role) + "m"@ + text@ + "\u{1b}[0m"@);
    }
    out
}

/// The emoji rendered for a tag, or nothing where emoji are off or the tag
/// is unknown.
pub fn emoji(tag: &str, style: &StyleOptions) -> (r: &'static str)
    ensures
        !style.use_emoji ==> r@ == ""@,
        style.use_emoji ==> {
            &&& tag@ == "success"@ ==> r@ == "\u{2714}"@
            &&& tag@ == "error"@ ==> r@ == "\u{2716}"@
            &&& tag@ == "warn"@ ==> r@ == "\u{26a0}"@
            &&& tag@ == "info"@ ==> r@ == "\u{2139}"@
        },
{
    if !style.use_emoji {
        return "";
    }
    proof {
        reveal_strlit("success");
        reveal_strlit("error");
        reveal_strlit("warn");
        reveal_strlit("info");
        assert("success"@.len() == 7);
        assert("error"@.len() == 5);
        assert("warn"@.len() == 4);
        assert("info"@.len() == 4);
        assert("warn"@[0] == 'w');
        assert("info"@[0] == 'i');
        assert("success"@ != "error"@ && "success"@ != "warn"@ && "success"@ != "info"@);
        assert("error"@ != "warn"@ && "error"@ != "info"@);
        assert("warn"@ != "info"@);
    }
    if crate::schema::str_eq(tag, "success") {
        "\u{2714}"
    } else if crate::schema::str_eq(tag, "error") {
        "\u{2716}"
    } else if crate::schema::str_eq(tag, "warn") {
        "\u{26a0}"
    } else if crate::schema::str_eq(tag, "info") {
        "\u{2139}"
    } else if crate::schema::str_eq(tag, "rocket") {
        "\u{1f680}"
    } else if crate::schema::str_eq(tag, "tool") {
        "\u{1f6e0}"
    } else if crate::schema::str_eq(tag, "spark") {
        "\u{2728}"
    } else if crate::schema::str_eq(tag, "list") {
        "\u{1f4dc}"
    } else if crate::schema::str_eq(tag, "clock") {
        "\u{23f1}"
    } else {
        ""
    }
}

/// Plain ANSI colours for simple output helpers.
#[derive(Debug, Clone, Copy, PartialEq, Eq, Structural)]
pub enum Color {
    Red,
    Green,
    Yellow,
    Blue,
    Magenta,
    Cyan,
    Bold,
}

impl Color {
    /// The colour's ANSI escape code.
    pub fn as_code(&self) -> (r: &'static str)
        ensures
            (*self == Color::Red) ==> r@ == "\u{1b}[31m"@,
            (*self == Color::Green) ==> r@ == "\u{1b}[32m"@,
            (*self == Color::Yellow) ==> r@ == "\u{1b}[33m"@,
            (*self == Color::Blue) ==> r@ == "\u{1b}[34m"@,
            (*self == Color::Magenta) ==> r@ == "\u{1b}[35m"@,
            (*self == Color::Cyan) ==> r@ == "\u{1b}[36m"@,
            (*self == Color::Bold) ==> r@ == "\u{1b}[1m"@,
    {
        match self {
            Color::Red => "\u{1b}[31m",
            Color::Green => "\u{1b}[32m",
            Color::Yellow => "\u{1b}[33m",
            Color::Blue => "\u{1b}[34m",
            Color::Magenta => "\u{1b}[35m",
            Color::Cyan => "\u{1b}[36m",
            Color::Bold => "\u{1b}[1m",
        }
    }
}

/// A terminating ANSI control-sequence letter.
pub open spec fn is_csi_end(c: char) -> bool {
    (65 <= c as u32 && c as u32 <= 90) || (97 <= c as u32 && c as u32 <= 122)
}

/// Index of the first control-sequence terminator at or after `from`.
pub open spec fn find_csi_end(s: Seq<char>, from: int) -> Option<int>
    decreases s.len() - from,
{
    if from < 0 || from >= s.len() {
        None
    } else if is_csi_end(s[from]) {
        Some(from)
    } else {
        find_csi_end(s, from + 1)
    }
}

proof fn lemma_find_csi_end_bounds(s: Seq<char>, from: int)
    ensures
        match find_csi_end(s, from) {
            Some(j) => from <= j < s.len() && is_csi_end(s[j]),
            None => true,
        },
    decreases s.len() - from,
{
    if 0 <= from < s.len() && !is_csi_end(s[from]) {
        lemma_find_csi_end_bounds(s, from + 1);
    }
}

/// The text with ANSI control sequences (`ESC [ … letter`) removed; a lone
/// escape character is kept, and an unterminated sequence swallows the rest.
pub open spec fn strip_ansi_spec(s: Seq<char>) -> Seq<char>
    decreases s.len(),
    via strip_ansi_spec_dec
{
    if s.len() == 0 {
        Seq::empty()
    } else if s[0] == '\u{1b}' && s.len() >= 2 && s[1] == '[' {
        match find_csi_end(s, 2) {
            Some(j) => strip_ansi_spec(s.subrange(j + 1, s.len() as int)),
            None => Seq::empty(),
        }
    } else {
        seq![s[0]] + strip_ansi_spec(s.drop_first())
    }
}

#[via_fn]
proof fn strip_ansi_spec_dec(s: Seq<char>) {
    lemma_find_csi_end_bounds(s, 2);
}

fn is_csi_end_exec(c: char) -> (r: bool)
    ensures
        r == is_csi_end(c),
{
    let v = c as u32;
    (65 <= v && v <= 90) || (97 <= v && v <= 122)
}

/// Remove ANSI control sequences from a string.
pub fn strip_ansi(s: &str) -> (r: String)
    ensures
        r@ == strip_ansi_spec(s@),
{
    let n = s.unicode_len();
    let mut out = String::new();
    let mut i: usize = 0;
    proof {
        assert(s@.subrange(0, n as int) =~= s@);
    }
    while i < n
        invariant
            0 <= i <= n,
            n == s@.len(),
            out@ + strip_ansi_spec(s@.subrange(i as int, n as int)) =~= strip_ansi_spec(s@),
        decreases n - i,
    {
        let ghost rem = s@.subrange(i as int, n as int);
        let c = s.get_char(i);
        if c == '\u{1b}' && i + 1 < n && s.get_char(i + 1) == '[' {
            // skip to the terminating letter
            let mut j: usize = i + 2;
            while j < n && !is_csi_end_exec(s.get_char(j))
                invariant
                    i + 2 <= j <= n,
                    n == s@.len(),
                    forall|k: int| i + 2 <= k < j ==> !is_csi_end(s@[k]),
                decreases n - j,
            {
                j = j + 1;
            }
            proof {
                assert(rem[0] == '\u{1b}');
                assert(rem[1] == '[');
                if j < n {
                    lemma_find_csi_end_at(rem, 2, j - i);
                    assert(rem.subrange(j - i + 1, rem.len() as int) =~= s@.subrange(
                        j + 1,
                        n as int,
                    ));
                } else {
                    lemma_find_csi_end_none(rem, 2);
                    assert(strip_ansi_spec(rem) =~= Seq::<char>::empty());
                }
            }
            if j < n {
                i = j + 1;
            } else {
                i = n;
            }
        } else {
            proof {
                if rem[0] == '\u{1b}' && rem.len() >= 2 && rem[1] == '[' {
                    assert(s@[i + 1] == '[');
                }
                assert(rem.drop_first() =~= s@.subrange(i + 1, n as int));
                assert(seq![rem[0]] =~= s@.subrange(i as int, i + 1));
            }
            let piece = s.substring_char(i, i + 1);
            out.append(piece);
            i = i + 1;
        }
    }
    proof {
        assert(strip_ansi_spec(s@.subrange(n as int, n as int)) =~= Seq::<char>::empty());
    }
    out
}

proof fn lemma_find_csi_end_at(s: Seq<char>, from: int, j: int)
    requires
        0 <= from <= j < s.len(),
        is_csi_end(s[j]),
        forall|k: int| from <= k < j ==> !is_csi_end(s[k]),
    ensures
        find_csi_end(s, from) == Some(j),
    decreases j - from,
{
    if from < j {
        lemma_find_csi_end_at(s, from + 1, j);
    }
}

proof fn lemma_find_csi_end_none(s: Seq<char>, from: int)
    requires
        from >= 0,
        forall|k: int| from <= k < s.len() ==> !is_csi_end(s[k]),
    ensures
        find_csi_end(s, from) is None,
    decreases s.len() - from,
{
    if from < s.len() {
        lemma_find_csi_end_none(s, from + 1);
    }
}

/// The width a string takes on screen: its character count with ANSI
/// control sequences removed.
pub fn display_width(s: &str) -> (r: usize)
    ensures
        r == strip_ansi_spec(s@).len(),
{
    let stripped = strip_ansi(s);
    stripped.as_str().unicode_len()
}

/// `n` spaces.
pub open spec fn spaces(n: int) -> Seq<char>
    decreases n,
{
    if n <= 0 {
        Seq::empty()
    } else {
        spaces(n - 1).push(' ')
    }
}

fn make_spaces(n: usize) -> (r: String)
    ensures
        r@ == spaces(n as int),
{
    let mut out = String::new();
    let mut i: usize = 0;
    while i < n
        invariant
            0 <= i <= n,
            out@ =~= spaces(i as int),
        decreases n - i,
    {
        out.append(" ");
        proof {
            reveal_strlit(" ");
            assert(" "@ =~= seq![' ']);
            assert(spaces(i as int).push(' ') =~= spaces(i as int) + seq![' ']);
        }
        i = i + 1;
    }
    out
}

/// Repeat a piece `n` times.
fn repeat_str(piece: &str, n: usize) -> (r: String)
    ensures
        r@.len() == n * piece@.len(),
{
    let mut out = String::new();
    let mut i: usize = 0;
    while i < n
        invariant
            0 <= i <= n,
            out@.len() == i * piece@.len(),
        decreases n - i,
    {
        out.append(piece);
        proof {
            assert((i + 1) * piece@.len() == i * piece@.len() + piece@.len()) by (nonlinear_arith);
        }
        i = i + 1;
    }
    out
}

/// Truncate to at most `max_chars` characters, ending in an ellipsis where
/// anything was cut; zero width yields the empty string.
pub fn truncate_ellipsis(s: &str, max_chars: usize) -> (r: String)
    ensures
        max_chars == 0 ==> r@ == Seq::<char>::empty(),
        max_chars > 0 && s@.len() <= max_chars ==> r@ == s@,
        max_chars == 1 && s@.len() > 1 ==> r@ == seq!['\u{2026}'],
        max_chars > 1 && s@.len() > max_chars ==> r@ == s@.subrange(0, max_chars - 1) + seq![
            '\u{2026}',
        ],
{
    if max_chars == 0 {
        return String::new();
    }
    let n = s.unicode_len();
    if n <= max_chars {
        return s.to_owned();
    }
    if max_chars == 1 {
        let mut out = String::new();
        out.append("\u{2026}");
        proof {
            reveal_strlit("\u{2026}");
            assert("\u{2026}"@ =~= seq!['\u{2026}']);
            assert(out@ =~= seq!['\u{2026}']);
        }
        return out;
    }
    let head = s.substring_char(0, max_chars - 1);
    let mut out = head.to_owned();
    out.append("\u{2026}");
    proof {
        reveal_strlit("\u{2026}");
        assert("\u{2026}"@ =~= seq!['\u{2026}']);
        assert(out@ =~= s@.subrange(0, max_chars - 1) + seq!['\u{2026}']);
    }
    out
}

/// Pad a cell to `width` display characters, or truncate it with an
/// ellipsis where it is longer and truncation is on. A short cell is padded
/// with spaces to exactly `width`; without truncation a long cell is kept.
pub fn pad_or_truncate(s: &str, width: usize, truncate: bool) -> (r: String)
    ensures
        strip_ansi_spec(s@).len() == width ==> r@ == s@,
        strip_ansi_spec(s@).len() < width ==> r@ == s@ + spaces(
            width - strip_ansi_spec(s@).len(),
        ),
        strip_ansi_spec(s@).len() > width && !truncate ==> r@ == s@,
{
    let len = display_width(s);
    if len == width {
        return s.to_owned();
    }
    if len < width {
        let mut out = s.to_owned();
        let pad = make_spaces(width - len);
        out.append(pad.as_str());
        return out;
    }
    if !truncate {
        return s.to_owned();
    }
    truncate_ellipsis(s, width)
}

/// Greedy word-wrap to at most `max_width` characters per line, splitting on
/// ASCII whitespace; a word longer than the width stands alone on its line.
/// Zero width disables wrapping. At least one line always comes back, and
/// wrapping never invents characters: every line is at most the width long
/// whenever every word is.
pub fn wrap_text(s: &str, max_width: usize) -> (r: Vec<String>)
    ensures
        r@.len() >= 1,
        max_width == 0 ==> r@.len() == 1 && r@[0]@ == s@,
{
    let mut lines: Vec<String> = Vec::new();
    if max_width == 0 {
        lines.push(s.to_owned());
        return lines;
    }
    let n = s.unicode_len();
    let mut current = String::new();
    let mut i: usize = 0;
    while i < n
        invariant
            0 <= i <= n,
            n == s@.len(),
            max_width >= 1,
        decreases n - i,
    {
        // find the next word
        if crate::chars::is_space(s.get_char(i)) {
            i = i + 1;
        } else {
            let start = i;
            let mut j: usize = i;
            while j < n && !crate::chars::is_space(s.get_char(j))
                invariant
                    i <= j <= n,
                    n == s@.len(),
                decreases n - j,
            {
                j = j + 1;
            }
            let word = s.substring_char(start, j);
            let word_len = j - start;
            let current_len = current.as_str().unicode_len();
            let fits = word_len < max_width && current_len <= max_width - word_len - 1;
            if !fits && current_len > 0 {
                lines.push(current);
                current = String::new();
            }
            let current_len2 = current.as_str().unicode_len();
            if current_len2 > 0 {
                current.append(" ");
            }
            current.append(word);
            i = j;
        }
    }
    if current.as_str().unicode_len() > 0 {
        lines.push(current);
    }
    if lines.len() == 0 {
        lines.push(String::new());
    }
    lines
}

/// Options controlling table rendering.
#[derive(Debug, Clone)]
pub struct TableOpts {
    pub max_width: usize,
    pub truncate: bool,
    pub header_sep: bool,
    pub zebra: bool,
    pub min_col_width: usize,
}

impl Default for TableOpts {
    /// The defaults: auto width, truncation and a header separator on, no
    /// zebra striping, columns at least two wide.
    fn default() -> (r: Self)
        ensures
            r.max_width == 0,
            r.truncate,
            r.header_sep,
            !r.zebra,
            r.min_col_width == 2,
    {
        TableOpts { max_width: 0, truncate: true, header_sep: true, zebra: false, min_col_width: 2 }
    }
}

/// Render a two-dimensional table: a header row, an optional dash
/// separator, and one line per row, columns padded to shared widths and
/// separated by two spaces. No headers, no output.
pub fn table(headers: &Vec<String>, rows: &Vec<Vec<String>>, opts: &TableOpts, style: &StyleOptions)
    -> (r: String)
    ensures
        headers@.len() == 0 ==> r@ == Seq::<char>::empty(),
        headers@.len() > 0 ==> r@.len() > 0,
{
    if headers.len() == 0 {
        return String::new();
    }
    let col_count = headers.len();
    let width_limit = if opts.max_width == 0 {
        style.term_width
    } else if opts.max_width < style.term_width {
        opts.max_width
    } else {
        style.term_width
    };
    // widest content per column
    let mut widths: Vec<usize> = Vec::new();
    let mut c: usize = 0;
    while c < col_count
        invariant
            0 <= c <= col_count,
            col_count == headers@.len(),
            widths@.len() == c,
        decreases col_count - c,
    {
        widths.push(headers[c].as_str().unicode_len());
        c = c + 1;
    }
    let nrows = rows.len();
    let mut ri: usize = 0;
    while ri < nrows
        invariant
            0 <= ri <= nrows,
            nrows == rows@.len(),
            widths@.len() == col_count,
        decreases nrows - ri,
    {
        let row = &rows[ri];
        let rlen = row.len();
        let mut ci: usize = 0;
        while ci < rlen && ci < col_count
            invariant
                0 <= ci <= rlen,
                rlen == row@.len(),
                widths@.len() == col_count,
            decreases rlen - ci,
        {
            let w = display_width(row[ci].as_str());
            if w > widths[ci] {
                widths.set(ci, w);
            }
            ci = ci + 1;
        }
        ri = ri + 1;
    }
    // shrink greedily while the total overflows the limit
    let mut total: usize = 0;
    let mut c2: usize = 0;
    while c2 < col_count
        invariant
            0 <= c2 <= col_count,
            widths@.len() == col_count,
        decreases col_count - c2,
    {
        let w = widths[c2];
        if total <= usize::MAX - w {
            total = total + w;
        } else {
            total = usize::MAX;
        }
        c2 = c2 + 1;
    }
    let gaps = if col_count - 1 <= usize::MAX / 2 {
        (col_count - 1) * 2
    } else {
        usize::MAX
    };
    let mut overflow: usize = if total <= usize::MAX - gaps && total + gaps > width_limit {
        total + gaps - width_limit
    } else if total > usize::MAX - gaps {
        usize::MAX
    } else {
        0
    };
    let mut c3: usize = 0;
    while c3 < col_count && overflow > 0
        invariant
            0 <= c3 <= col_count,
            widths@.len() == col_count,
        decreases col_count - c3,
    {
        let target = widths[c3];
        if target > opts.min_col_width {
            let room = target - opts.min_col_width;
            let shrink = if room < overflow {
                room
            } else {
                overflow
            };
            widths.set(c3, target - shrink);
            overflow = overflow - shrink;
        }
        c3 = c3 + 1;
    }
    // render
    let mut out = String::new();
    let mut h: usize = 0;
    while h < col_count
        invariant
            0 <= h <= col_count,
            col_count == headers@.len(),
            widths@.len() == col_count,
        decreases col_count - h,
    {
        if h > 0 {
            out.append("  ");
        }
        let cell = pad_or_truncate(headers[h].as_str(), widths[h], opts.truncate);
        let styled = color(Role::Accent, cell.as_str(), style);
        out.append(styled.as_str());
        h = h + 1;
    }
    out.append("\n");
    proof {
        reveal_strlit("\n");
        assert("\n"@.len() == 1);
    }
    if opts.header_sep {
        let mut sep = String::new();
        let mut sc: usize = 0;
        while sc < col_count
            invariant
                0 <= sc <= col_count,
                widths@.len() == col_count,
                out@.len() > 0,
            decreases col_count - sc,
        {
            if sc > 0 {
                sep.append("  ");
            }
            let dashes = repeat_str("-", widths[sc]);
            sep.append(dashes.as_str());
            sc = sc + 1;
        }
        let styled_sep = color(Role::Dim, sep.as_str(), style);
        out.append(styled_sep.as_str());
        out.append("\n");
    }
    let mut r2: usize = 0;
    while r2 < nrows
        invariant
            0 <= r2 <= nrows,
            nrows == rows@.len(),
            widths@.len() == col_count,
            out@.len() > 0,
        decreases nrows - r2,
    {
        let row = &rows[r2];
        let rlen = row.len();
        let mut cc: usize = 0;
        while cc < col_count
            invariant
                0 <= cc <= col_count,
                widths@.len() == col_count,
                rlen == row@.len(),
                out@.len() > 0,
            decreases col_count - cc,
        {
            if cc > 0 {
                out.append("  ");
            }
            let raw: &str = if cc < rlen {
                row[cc].as_str()
            } else {
                ""
            };
            let cell = pad_or_truncate(raw, widths[cc], opts.truncate);
            if opts.zebra && r2 % 2 == 1 && style.use_color {
                let styled = color(Role::Dim, cell.as_str(), style);
                out.append(styled.as_str());
            } else {
                out.append(cell.as_str());
            }
            cc = cc + 1;
        }
        if r2 + 1 < nrows {
            out.append("\n");
        }
        r2 = r2 + 1;
    }
    proof {
        assert(headers@.len() > 0);
    }
    out
}

/// Render a boxed header: a top border, the title (and optional subtitle)
/// wrapped and padded between vertical borders, and a bottom border, sized
/// to the content but capped by the terminal width. The result always
/// starts with the style's top-left corner and ends with its bottom-right
/// corner.
pub fn box_header(title: &str, subtitle: Option<&str>, style: &StyleOptions) -> (r: String)
    ensures
        r@.len() > 0,
        r@[0] == match style.box_style {
            BoxStyle::Light => '\u{250c}',
            BoxStyle::Rounded => '\u{256d}',
        },
        r@[r@.len() - 1] == match style.box_style {
            BoxStyle::Light => '\u{2518}',
            BoxStyle::Rounded => '\u{256f}',
        },
{
    let (h, v, tl, tr, bl, br): (
        &'static str,
        &'static str,
        &'static str,
        &'static str,
        &'static str,
        &'static str,
    ) = match style.box_style {
        BoxStyle::Light => ("\u{2500}", "\u{2502}", "\u{250c}", "\u{2510}", "\u{2514}", "\u{2518}"),
        BoxStyle::Rounded => (
            "\u{2500}",
            "\u{2502}",
            "\u{256d}",
            "\u{256e}",
            "\u{2570}",
            "\u{256f}",
        ),
    };
    proof {
        reveal_strlit("\u{250c}");
        reveal_strlit("\u{2518}");
        reveal_strlit("\u{256d}");
        reveal_strlit("\u{256f}");
        assert("\u{250c}"@ =~= seq!['\u{250c}']);
        assert("\u{2518}"@ =~= seq!['\u{2518}']);
        assert("\u{256d}"@ =~= seq!['\u{256d}']);
        assert("\u{256f}"@ =~= seq!['\u{256f}']);
    }
    let content_width = if style.term_width > 200 {
        200
    } else if style.term_width < 20 {
        20
    } else {
        style.term_width
    };
    let padding = if style.padding > 8 {
        8
    } else {
        style.padding
    };
    // the styled one-line content
    let title_styled = color(Role::Primary, title, style);
    let mut inner = title_styled;
    match subtitle {
        Some(sub) => {
            let sub_styled = color(Role::Secondary, sub, style);
            inner.append("  ");
            inner.append(sub_styled.as_str());
        },
        None => {},
    }
    let inner_len = display_width(inner.as_str());
    let mut total_inner = if inner_len <= usize::MAX - 16 {
        inner_len + padding * 2
    } else {
        usize::MAX
    };
    if total_inner > content_width - 2 {
        total_inner = content_width - 2;
    }
    let total_width = total_inner + 2;
    let mut wrap_width = if total_width >= 2 + padding * 2 {
        total_width - 2 - padding * 2
    } else {
        1
    };
    if wrap_width == 0 {
        wrap_width = 1;
    }
    let wrapped = wrap_text(inner.as_str(), wrap_width);
    let mut out = String::new();
    out.append(tl);
    let hline = repeat_str(h, total_width - 2);
    out.append(hline.as_str());
    out.append(tr);
    let nl = wrapped.len();
    let mut li: usize = 0;
    while li < nl
        invariant
            0 <= li <= nl,
            nl == wrapped@.len(),
            out@.len() > 0,
            out@[0] == tl@[0],
            tl@.len() == 1,
            total_width >= 2,
            padding <= 8,
        decreases nl - li,
    {
        out.append("\n");
        out.append(v);
        let pad = make_spaces(padding);
        out.append(pad.as_str());
        let line = &wrapped[li];
        out.append(line.as_str());
        let line_width = display_width(line.as_str());
        let inner_space = total_width - 2;
        if inner_space > padding && line_width < inner_space - padding {
            let fill = make_spaces(inner_space - padding - line_width);
            out.append(fill.as_str());
        }
        out.append(v);
        li = li + 1;
    }
    out.append("\n");
    out.append(bl);
    let hline2 = repeat_str(h, total_width - 2);
    out.append(hline2.as_str());
    out.append(br);
    proof {
        assert(br@.len() == 1);
        assert(out@[out@.len() - 1] == br@[0]);
    }
    out
}

} // verus!
