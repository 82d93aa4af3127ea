//! The translation of parse events into LaTeX: a state machine over a context
//! stack, a primary buffer and a table buffer.
use vstd::prelude::*;
use crate::events::{EventType, Event, Tag, Reply, ConvertError};
use crate::writer::{escape_tex, drop_two};
use crate::markers::{first_marker, strip_attributes, open_marker_at, close_marker_at};
use crate::strings::replace_all;
use crate::text::first_word;
use crate::slug::kebab_of;
use crate::resolve::{join, is_vector, raster_of};

verus! {

/// The translation settings that events are read with.
pub struct Settings {
    /// Added to each heading's level.
    pub chap_offset: i32,
    /// The directory that image paths and relative links are read against.
    pub assets: Option<String>,
    /// The markers put before and after each non-ASCII character of inline code.
    pub code_utf8_escape: Option<(String, String)>,
}

/// The state of a translation.
pub struct EngineView {
    /// The finished LaTeX body.
    pub out: Seq<char>,
    /// The rows of the open table, which follow its column specification.
    pub table: Seq<char>,
    /// The raw text of the heading that is open or was open last.
    pub header: Seq<char>,
    /// The open constructs, innermost last.
    pub stack: Seq<EventType>,
    /// The head cells of the open table.
    pub cells: u64,
    /// While a math span is open, the second character of the marker that
    /// closes it.
    pub equation: Option<char>,
    /// The last character of the text seen so far, held back because it may
    /// begin a math marker that the next text completes.
    pub held: Seq<char>,
}

pub open spec fn initial() -> EngineView {
    EngineView {
        out: seq![],
        table: seq![],
        header: seq![],
        stack: seq![],
        cells: 0,
        equation: None,
        held: seq![],
    }
}

/// The innermost open construct; plain text when none is open.
pub open spec fn top(stack: Seq<EventType>) -> EventType {
    if stack.len() == 0 {
        EventType::Text
    } else {
        stack.last()
    }
}

pub open spec fn push_ctx(s: EngineView, k: EventType) -> EngineView {
    EngineView { stack: s.stack.push(k), ..s }
}

pub open spec fn pop_ctx(s: EngineView) -> EngineView {
    EngineView {
        stack: if s.stack.len() == 0 {
            s.stack
        } else {
            s.stack.drop_last()
        },
        ..s
    }
}

/// Output goes to the table buffer while a table is open, else to the body.
pub open spec fn emit(s: EngineView, t: Seq<char>) -> EngineView {
    if s.stack.contains(EventType::Table) {
        EngineView { table: s.table + t, ..s }
    } else {
        EngineView { out: s.out + t, ..s }
    }
}

pub open spec fn emit_table(s: EngineView, t: Seq<char>) -> EngineView {
    EngineView { table: s.table + t, ..s }
}

/// The sectioning command for an effective heading level.
pub open spec fn heading_markup(level: int) -> Seq<char> {
    if level <= 0 {
        "\\chapter{"@
    } else if level == 1 {
        "\\section{"@
    } else if level == 2 {
        "\\subsection{"@
    } else if level == 3 {
        "\\subsubsection{"@
    } else if level == 4 {
        "\\paragraph{"@
    } else {
        "\\subparagraph{"@
    }
}

/// `\paragraph` and `\subparagraph` directly inside a quote need a line before them.
pub open spec fn needs_guard(level: int, parent: EventType) -> bool {
    level >= 4 && parent == EventType::BlockQuote
}

/// The second character of the marker that closes a math span opened by a
/// marker whose second character is `c`: `$$` by `$$`, `\[` by `\]`, `\(` by `\)`.
pub open spec fn closer_for(c: char) -> char {
    if c == '[' {
        ']'
    } else if c == '(' {
        ')'
    } else {
        '$'
    }
}

/// Text with math spans: outside them escaped, inside them verbatim between
/// `\[` and `\]`; with the closer that the span still open at the end awaits.
/// Inside a span, a closer of another kind is text of the span.
pub open spec fn render_text(t: Seq<char>, eq: Option<char>) -> (Seq<char>, Option<char>)
    decreases t.len(),
{
    match eq {
        None => match first_marker(t, true) {
            Some(i) => if 0 <= i && i + 2 <= t.len() {
                let (rest, e) = render_text(
                    t.subrange(i + 2, t.len() as int),
                    Some(closer_for(t[i + 1])),
                );
                (escape_tex(t.subrange(0, i)) + "\\["@ + rest, e)
            } else {
                (t, eq)
            },
            None => (escape_tex(t), eq),
        },
        Some(k) => match first_marker(t, false) {
            Some(i) => if 0 <= i && i + 2 <= t.len() {
                if t[i + 1] == k {
                    let (rest, e) = render_text(t.subrange(i + 2, t.len() as int), None);
                    (t.subrange(0, i) + "\\]"@ + rest, e)
                } else {
                    let (rest, e) = render_text(t.subrange(i + 2, t.len() as int), eq);
                    (t.subrange(0, i + 2) + rest, e)
                }
            } else {
                (t, eq)
            },
            None => (t, eq),
        },
    }
}

/// The state after writing text with its math spans.
pub open spec fn rendered(s: EngineView, t: Seq<char>) -> EngineView {
    let (r, e) = render_text(t, s.equation);
    EngineView { equation: e, ..emit(s, r) }
}

/// Text whose last character is held back: a backslash or `$` that does not
/// end a marker.
pub open spec fn may_hold(u: Seq<char>) -> bool {
    let n = u.len() as int;
    n >= 1 && (u[n - 1] == '\\' || u[n - 1] == '$') && !(n >= 2 && (open_marker_at(u, n - 2)
        || close_marker_at(u, n - 2)))
}

/// Writes out the held-back character, as the text it belongs to is written.
pub open spec fn flush(s: EngineView) -> EngineView {
    if s.held.len() == 0 {
        s
    } else {
        let s0 = EngineView { held: seq![], ..s };
        if s.equation is Some {
            emit(s0, s.held)
        } else {
            emit(s0, escape_tex(s.held))
        }
    }
}

pub open spec fn text_event(s: EngineView, t: Seq<char>) -> EngineView {
    let s1 = if s.stack.contains(EventType::Header) {
        EngineView { header: s.header + t, ..s }
    } else {
        s
    };
    let k = top(s.stack);
    if k == EventType::Code || k == EventType::BlockQuote {
        emit(flush(s1), t)
    } else {
        let u = s1.held + t;
        let s2 = EngineView { held: seq![], ..s1 };
        if may_hold(u) {
            EngineView { held: seq![u.last()], ..rendered(s2, u.drop_last()) }
        } else {
            rendered(s2, u)
        }
    }
}

/// How inline code writes one character.
pub open spec fn code_char(c: char, esc: Option<(String, String)>) -> Seq<char> {
    if c == '\u{2026}' {
        "..."@
    } else if c == '\u{FFFD}' {
        seq!['?']
    } else if (c as u32) < 128 {
        seq![c]
    } else {
        match esc {
            Some((a, b)) => a@ + seq![c] + b@,
            None => seq![c],
        }
    }
}

pub open spec fn code_body(t: Seq<char>, esc: Option<(String, String)>) -> Seq<char>
    decreases t.len(),
{
    if t.len() == 0 {
        seq![]
    } else {
        code_body(t.drop_last(), esc) + code_char(t.last(), esc)
    }
}

/// The first of `|`, `!`, `?`, `+`, `@` that the code does not hold.
pub open spec fn listing_delimiter(code: Seq<char>) -> Option<char> {
    if !code.contains('|') {
        Some('|')
    } else if !code.contains('!') {
        Some('!')
    } else if !code.contains('?') {
        Some('?')
    } else if !code.contains('+') {
        Some('+')
    } else if !code.contains('@') {
        Some('@')
    } else {
        None
    }
}

pub open spec fn code_event(c: Settings, s: EngineView, t: Seq<char>) -> Result<
    EngineView,
    ConvertError,
> {
    if s.stack.contains(EventType::Header) {
        Ok(emit(emit(emit(s, "\\texttt{"@), escape_tex(code_body(t, None))), "}"@))
    } else {
        let code = code_body(t, c.code_utf8_escape);
        match listing_delimiter(code) {
            Some(d) => Ok(emit(emit(emit(emit(s, "\\lstinline"@), seq![d]), code), seq![d])),
            None => Err(ConvertError::NoListingDelimiter),
        }
    }
}

pub open spec fn is_ascii_letter(c: char) -> bool {
    ('a' <= c && c <= 'z') || ('A' <= c && c <= 'Z')
}

pub open spec fn is_scheme_char(c: char) -> bool {
    is_ascii_letter(c) || ('0' <= c && c <= '9') || c == '+' || c == '-' || c == '.'
}

/// From `i` on, scheme characters run up to a colon.
pub open spec fn scheme_from(u: Seq<char>, i: int) -> bool
    decreases u.len() - i,
{
    if i < 0 || i >= u.len() {
        false
    } else if u[i] == ':' {
        true
    } else if is_scheme_char(u[i]) {
        scheme_from(u, i + 1)
    } else {
        false
    }
}

/// A link with a URL scheme (`https:`, `mailto:`), rather than one to a part
/// of the document: a letter, then letters, digits, `+`, `-` or `.`, then a colon.
pub open spec fn is_web_link(u: Seq<char>) -> bool {
    u.len() >= 2 && is_ascii_letter(u[0]) && scheme_from(u, 1)
}

/// The cross-reference label of a relative link: the title found for it, else
/// the link with its `#` characters removed.
pub open spec fn link_label(url: Seq<char>, r: Reply) -> Seq<char> {
    match r {
        Reply::Title(t) => t@,
        _ => replace_all(url, "#"@, ""@),
    }
}

pub open spec fn assets_of(c: Settings) -> Seq<char> {
    match c.assets {
        Some(a) => a@,
        None => seq![],
    }
}

pub open spec fn figure(s: EngineView, path: Seq<char>, title: Seq<char>) -> EngineView {
    let s1 = emit(s, "\\begin{figure}\n\\centering\n\\includegraphics[width=\\textwidth]{"@);
    emit(emit(emit(emit(s1, path), "}\n\\caption{"@), title), "}\n\\end{figure}\n"@)
}

pub open spec fn image_event(c: Settings, s: EngineView, p: Seq<char>, title: Seq<char>, r: Reply) -> Result<
    EngineView,
    ConvertError,
> {
    let src = join(assets_of(c), p);
    if is_vector(src) {
        if r is Done {
            Ok(figure(s, raster_of(src), title))
        } else {
            Err(ConvertError::ImageNotRasterized)
        }
    } else {
        Ok(figure(s, src, title))
    }
}

pub open spec fn start_event(c: Settings, s: EngineView, tag: Tag, r: Reply) -> Result<
    EngineView,
    ConvertError,
> {
    match tag {
        Tag::Heading(l) => {
            let level = l as int + c.chap_offset as int;
            let s1 = EngineView { header: seq![], ..push_ctx(s, EventType::Header) };
            let s2 = emit(s1, "\n"@);
            let s3 = if needs_guard(level, top(s.stack)) && level <= i32::MAX {
                emit(s2, "\\mbox{} %\n"@)
            } else {
                s2
            };
            if i32::MIN <= level <= i32::MAX {
                Ok(emit(s3, heading_markup(level)))
            } else {
                Ok(s2)
            }
        },
        Tag::Emphasis => Ok(emit(push_ctx(s, EventType::Emphasis), "\\emph{"@)),
        Tag::Strong => Ok(emit(push_ctx(s, EventType::Strong), "\\textbf{"@)),
        Tag::BlockQuote => Ok(emit(push_ctx(s, EventType::BlockQuote), "\n\\begin{quote}\n"@)),
        Tag::List(None) => Ok(emit(s, "\n\\begin{itemize}\n"@)),
        Tag::List(Some(_)) => Ok(emit(s, "\\begin{enumerate}\n"@)),
        Tag::Paragraph => Ok(emit(s, "\n"@)),
        Tag::Item => Ok(emit(s, "\\item "@)),
        Tag::Link(url) => if is_web_link(url@) {
            Ok(emit(emit(emit(s, "\\href{"@), url@), "}{"@))
        } else {
            Ok(emit(emit(emit(s, "\\hyperref["@), link_label(url@, r)), "]{"@))
        },
        Tag::Table => Ok(emit_table(push_ctx(s, EventType::Table), "}\n\\hline\n\\hline\n\n"@)),
        Tag::TableHead => Ok(push_ctx(s, EventType::TableHead)),
        Tag::TableCell => if top(s.stack) == EventType::TableHead {
            Ok(emit_table(s, "\\bfseries{"@))
        } else {
            Ok(s)
        },
        Tag::Image(p, title) => image_event(c, s, p@, title@, r),
        Tag::CodeBlock(None) => Ok(push_ctx(emit(s, "\\begin{lstlisting}\n"@), EventType::Code)),
        Tag::CodeBlock(Some(lang)) => {
            let s1 = emit(emit(s, "\\begin{lstlisting}[language="@), first_word(strip_attributes(lang@)));
            Ok(push_ctx(emit(s1, "]\n"@), EventType::Code))
        },
        Tag::TableRow | Tag::Other => Ok(s),
    }
}

/// The lines of a table that come before its column specification.
pub const TABLE_OPEN: &'static str = "\n\\begingroup\n\\setlength{\\LTleft}{-20cm plus -1fill}\n\\setlength{\\LTright}{\\LTleft}\n\\begin{longtable}{";

/// The lines that close a table.
pub const TABLE_END: &'static str = "\\arrayrulecolor{black}\\hline\n\\end{longtable}\n\\endgroup\n\n";

pub open spec fn pow10(k: nat) -> nat
    decreases k,
{
    if k == 0 {
        1
    } else {
        10 * pow10((k - 1) as nat)
    }
}

pub open spec fn digit_char(d: int) -> char {
    if d == 0 {
        '0'
    } else if d == 1 {
        '1'
    } else if d == 2 {
        '2'
    } else if d == 3 {
        '3'
    } else if d == 4 {
        '4'
    } else if d == 5 {
        '5'
    } else if d == 6 {
        '6'
    } else if d == 7 {
        '7'
    } else if d == 8 {
        '8'
    } else {
        '9'
    }
}

/// The first `k` decimal digits of `1/n` after the point.
pub open spec fn width_digits(n: nat, k: nat) -> Seq<char>
    decreases k,
{
    if k == 0 {
        seq![]
    } else {
        width_digits(n, (k - 1) as nat).push(digit_char(((pow10(k) / n) % 10) as int))
    }
}

pub open spec fn trim_zeros(s: Seq<char>) -> Seq<char>
    decreases s.len(),
{
    if s.len() > 0 && s.last() == '0' {
        trim_zeros(s.drop_last())
    } else {
        s
    }
}

/// The number of decimal places a column width is written with.
pub const WIDTH_PLACES: u64 = 16;

/// `1/n` in decimal, cut after sixteen places, without trailing zeros.
pub open spec fn width_text(n: nat) -> Seq<char> {
    if n <= 1 {
        seq!['1']
    } else {
        seq!['0', '.'] + trim_zeros(width_digits(n, WIDTH_PLACES as nat))
    }
}

/// The column specification for one of `n` columns of equal width.
pub open spec fn column_token(n: nat) -> Seq<char> {
    "C{"@ + width_text(n) + "\\textwidth} "@
}

/// `k` column specifications for `n` columns.
pub open spec fn columns(n: nat, k: nat) -> Seq<char>
    decreases k,
{
    if k == 0 {
        seq![]
    } else {
        columns(n, (k - 1) as nat) + column_token(n)
    }
}

pub open spec fn close_table(s: EngineView) -> EngineView {
    let t = s.table + TABLE_END@;
    EngineView {
        out: s.out + TABLE_OPEN@ + columns(s.cells as nat, s.cells as nat) + t,
        table: seq![],
        cells: 0,
        ..pop_ctx(s)
    }
}

pub open spec fn bump(c: u64) -> u64 {
    if c < u64::MAX {
        (c + 1) as u64
    } else {
        c
    }
}

pub open spec fn end_event(s: EngineView, tag: Tag) -> EngineView {
    match tag {
        Tag::Heading(_) => {
            let s1 = emit(emit(s, "}\n\\label{"@), s.header);
            pop_ctx(emit(emit(emit(s1, "}\n\\label{"@), kebab_of(s.header)), "}\n"@))
        },
        Tag::Emphasis | Tag::Strong => pop_ctx(emit(s, "}"@)),
        Tag::BlockQuote => pop_ctx(emit(s, "\n\\end{quote}\n\n"@)),
        Tag::List(None) => emit(s, "\n\\end{itemize}\n"@),
        Tag::List(Some(_)) => emit(s, "\\end{enumerate}\n"@),
        Tag::Paragraph => emit(s, "~\\\\\n"@),
        Tag::Item => emit(s, "\n"@),
        Tag::Link(_) => emit(s, "}"@),
        Tag::Table => close_table(s),
        Tag::TableHead => pop_ctx(
            emit_table(EngineView { table: drop_two(s.table), ..s }, "\\\\\n\\hline\n"@),
        ),
        Tag::TableRow => emit_table(
            EngineView { table: drop_two(s.table), ..s },
            "\\\\\\arrayrulecolor{lightgray}\\hline\n"@,
        ),
        Tag::TableCell => {
            let s1 = if top(s.stack) == EventType::TableHead {
                EngineView { cells: bump(s.cells), ..emit_table(s, "}"@) }
            } else {
                s
            };
            emit_table(s1, " & "@)
        },
        Tag::CodeBlock(_) => pop_ctx(emit(s, "\n\\end{lstlisting}\n"@)),
        Tag::Image(_, _) | Tag::Other => s,
    }
}

/// The translation of one event, given the reply to the request it made.
/// The translation of an event other than text, once held-back text is out.
pub open spec fn markup_event(c: Settings, s: EngineView, e: Event, r: Reply) -> Result<
    EngineView,
    ConvertError,
> {
    match e {
        Event::Start(tag) => start_event(c, s, tag, r),
        Event::End(tag) => Ok(end_event(s, tag)),
        Event::Code(t) => code_event(c, s, t@),
        Event::SoftBreak => Ok(emit(s, "\n"@)),
        Event::HardBreak => Ok(emit(s, "\\\\\n"@)),
        Event::Text(_) | Event::Html(_) | Event::Other => Ok(s),
    }
}

/// The translation of one event, given the reply to the request it made.
pub open spec fn step(c: Settings, s: EngineView, e: Event, r: Reply) -> Result<
    EngineView,
    ConvertError,
> {
    match e {
        Event::Text(t) => Ok(text_event(s, t@)),
        _ => markup_event(c, flush(s), e, r),
    }
}

} // verus!
