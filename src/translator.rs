//! The executable translation engine; each event moves it as `step` says.
use vstd::prelude::*;
use vstd::string::StringExecFns;
use crate::events::{EventType, Event, Tag, Reply, ConvertError};
use crate::writer::{TexWriter, escape_tex_text, escape_tex};
use crate::markers::{
    first_marker, marker_at, marker_from, split_at_open_marker, split_at_close_marker, strip_code_attributes,
};
use crate::strings::{replace_str, push_char, chars_of};
use crate::text::{first_word_of, collect_range};
use crate::slug::{to_kebab, kebab_of, slug_shape};
use crate::resolve::{join_path, is_vector_path, raster_path};
use crate::engine::{
    Settings, EngineView, initial, top, pop_ctx, emit, heading_markup,
    render_text, rendered, closer_for, text_event, code_char, code_body, listing_delimiter, code_event, start_event,
    end_event, step, flush, is_web_link, scheme_from, is_ascii_letter, pow10, digit_char, width_digits, trim_zeros, width_text, columns, assets_of,
    TABLE_OPEN, TABLE_END, WIDTH_PLACES,
};

verus! {

/// The translation state: primary buffer, table buffer, heading text, context
/// stack, head-cell counter and equation flag.
pub struct Engine {
    writer: TexWriter,
    table: TexWriter,
    header_value: String,
    stack: Vec<EventType>,
    cells: u64,
    equation: Option<char>,
    held: String,
}

impl View for Engine {
    type V = EngineView;

    closed spec fn view(&self) -> EngineView {
        EngineView {
            out: self.writer@,
            table: self.table@,
            header: self.header_value@,
            stack: self.stack@,
            cells: self.cells,
            equation: self.equation,
            held: self.held@,
        }
    }
}

proof fn lemma_emit_concat(s: EngineView, a: Seq<char>, b: Seq<char>)
    ensures
        emit(emit(s, a), b) == emit(s, a + b),
{
    assert(s.out + a + b =~= s.out + (a + b));
    assert(s.table + a + b =~= s.table + (a + b));
}

proof fn lemma_marker_bounds(s: Seq<char>, i: int, opening: bool)
    requires
        i >= 0,
    ensures
        marker_from(s, i, opening) matches Some(j) ==> i <= j && j + 2 <= s.len(),
    decreases s.len() - i,
{
    if i + 1 < s.len() && !marker_at(s, i, opening) {
        lemma_marker_bounds(s, i + 1, opening);
    }
}

proof fn lemma_pow10_le(a: nat, b: nat)
    requires
        a <= b,
    ensures
        pow10(a) <= pow10(b),
    decreases b,
{
    if a < b {
        lemma_pow10_le(a, (b - 1) as nat);
    }
}

proof fn lemma_pow10_places()
    ensures
        pow10(16) == 10000000000000000,
{
    reveal_with_fuel(pow10, 17);
}

fn stack_has(stack: &Vec<EventType>, k: EventType) -> (r: bool)
    ensures
        r == stack@.contains(k),
{
    let mut i: usize = 0;
    while i < stack.len()
        invariant
            i <= stack@.len(),
            forall|j: int| 0 <= j < i ==> stack@[j] != k,
        decreases stack@.len() - i,
    {
        if stack[i] == k {
            assert(stack@[i as int] == k);
            return true;
        }
        i = i + 1;
    }
    false
}

fn contains_char(cs: &Vec<char>, c: char) -> (r: bool)
    ensures
        r == cs@.contains(c),
{
    let mut i: usize = 0;
    while i < cs.len()
        invariant
            i <= cs@.len(),
            forall|j: int| 0 <= j < i ==> cs@[j] != c,
        decreases cs@.len() - i,
    {
        if cs[i] == c {
            assert(cs@[i as int] == c);
            return true;
        }
        i = i + 1;
    }
    false
}

/// The delimiter an inline listing of these characters is written with.
pub fn pick_delimiter(code: &Vec<char>) -> (r: Option<char>)
    ensures
        r == listing_delimiter(code@),
{
    if !contains_char(code, '|') {
        Some('|')
    } else if !contains_char(code, '!') {
        Some('!')
    } else if !contains_char(code, '?') {
        Some('?')
    } else if !contains_char(code, '+') {
        Some('+')
    } else if !contains_char(code, '@') {
        Some('@')
    } else {
        None
    }
}

/// Inline code as it is written: ellipses and replacement characters made
/// plain, and each other non-ASCII character between the escape markers.
pub fn code_text(t: &str, esc: &Option<(String, String)>) -> (r: String)
    ensures
        r@ == code_body(t@, *esc),
{
    let cs = chars_of(t);
    let mut r = String::new();
    let mut i: usize = 0;
    while i < cs.len()
        invariant
            i <= cs@.len(),
            cs@ == t@,
            r@ == code_body(t@.subrange(0, i as int), *esc),
        decreases cs@.len() - i,
    {
        let c = cs[i];
        let ghost before = r@;
        if c == '\u{2026}' {
            r.append("...");
        } else if c == '\u{FFFD}' {
            push_char(&mut r, '?');
        } else if (c as u32) < 128 {
            push_char(&mut r, c);
        } else {
            match esc {
                Some((a, b)) => {
                    r.append(a.as_str());
                    push_char(&mut r, c);
                    r.append(b.as_str());
                },
                None => {
                    push_char(&mut r, c);
                },
            }
        }
        assert(r@ =~= before + code_char(c, *esc));
        assert(t@.subrange(0, i + 1).drop_last() =~= t@.subrange(0, i as int));
        i = i + 1;
    }
    assert(t@.subrange(0, cs@.len() as int) =~= t@);
    r
}

fn digit(d: u64) -> (r: char)
    requires
        d < 10,
    ensures
        r == digit_char(d as int),
{
    if d == 0 {
        '0'
    } else if d == 1 {
        '1'
    } else if d == 2 {
        '2'
    } else if d == 3 {
        '3'
    } else if d == 4 {
        '4'
    } else if d == 5 {
        '5'
    } else if d == 6 {
        '6'
    } else if d == 7 {
        '7'
    } else if d == 8 {
        '8'
    } else {
        '9'
    }
}

/// `1/n` in decimal, cut after sixteen places, without trailing zeros.
pub fn width_string(n: u64) -> (r: String)
    ensures
        r@ == width_text(n as nat),
{
    let mut r = String::new();
    if n <= 1 {
        push_char(&mut r, '1');
        assert(r@ =~= width_text(n as nat));
        return r;
    }
    let mut ds: Vec<char> = Vec::new();
    let mut p: u64 = 1;
    let mut k: u64 = 0;
    proof {
        lemma_pow10_places();
    }
    while k < WIDTH_PLACES
        invariant
            k <= WIDTH_PLACES,
            n >= 2,
            p == pow10(k as nat),
            pow10(16) == 10000000000000000,
            ds@ == width_digits(n as nat, k as nat),
        decreases WIDTH_PLACES - k,
    {
        proof {
            lemma_pow10_le((k + 1) as nat, 16);
        }
        p = p * 10;
        let d = (p / n) % 10;
        ds.push(digit(d));
        k = k + 1;
    }
    let mut e: usize = ds.len();
    assert(ds@.subrange(0, ds@.len() as int) =~= ds@);
    while e > 0 && ds[e - 1] == '0'
        invariant
            e <= ds@.len(),
            trim_zeros(ds@.subrange(0, e as int)) == trim_zeros(ds@),
        decreases e,
    {
        assert(ds@.subrange(0, e as int).drop_last() =~= ds@.subrange(0, e - 1));
        e = e - 1;
    }
    push_char(&mut r, '0');
    push_char(&mut r, '.');
    let mut i: usize = 0;
    while i < e
        invariant
            i <= e <= ds@.len(),
            r@ == seq!['0', '.'] + ds@.subrange(0, i as int),
        decreases e - i,
    {
        push_char(&mut r, ds[i]);
        assert(r@ =~= seq!['0', '.'] + ds@.subrange(0, i + 1));
        i = i + 1;
    }
    r
}

/// The column specification of a table with `n` columns of equal width.
pub fn column_spec(n: u64) -> (r: String)
    ensures
        r@ == columns(n as nat, n as nat),
{
    let w = width_string(n);
    let mut r = String::new();
    let mut k: u64 = 0;
    while k < n
        invariant
            k <= n,
            w@ == width_text(n as nat),
            r@ == columns(n as nat, k as nat),
        decreases n - k,
    {
        let ghost before = r@;
        r.append("C{");
        r.append(w.as_str());
        r.append("\\textwidth} ");
        k = k + 1;
        assert(r@ =~= columns(n as nat, k as nat));
    }
    r
}

/// Whether `u` begins with a URL scheme and a colon.
pub fn is_absolute_url(u: &str) -> (r: bool)
    ensures
        r == is_web_link(u@),
{
    let cs = chars_of(u);
    if cs.len() < 2 || !(('a' <= cs[0] && cs[0] <= 'z') || ('A' <= cs[0] && cs[0] <= 'Z')) {
        return false;
    }
    let mut i: usize = 1;
    while i < cs.len()
        invariant
            1 <= i <= cs@.len(),
            cs@ == u@,
            cs@.len() >= 2,
            is_ascii_letter(u@[0]),
            scheme_from(u@, i as int) == scheme_from(u@, 1),
        decreases cs@.len() - i,
    {
        let c = cs[i];
        if c == ':' {
            return true;
        }
        if !(('a' <= c && c <= 'z') || ('A' <= c && c <= 'Z') || ('0' <= c && c <= '9') || c
            == '+' || c == '-' || c == '.') {
            return false;
        }
        i = i + 1;
    }
    false
}

fn closer(c: char) -> (r: char)
    ensures
        r == closer_for(c),
{
    if c == '[' {
        ']'
    } else if c == '(' {
        ')'
    } else {
        '$'
    }
}

fn heading_command(level: i64) -> (r: &'static str)
    ensures
        r@ == heading_markup(level as int),
{
    if level <= 0 {
        "\\chapter{"
    } else if level == 1 {
        "\\section{"
    } else if level == 2 {
        "\\subsection{"
    } else if level == 3 {
        "\\subsubsection{"
    } else if level == 4 {
        "\\paragraph{"
    } else {
        "\\subparagraph{"
    }
}

impl Engine {
    pub fn new() -> (r: Self)
        ensures
            r@ == initial(),
    {
        Engine {
            writer: TexWriter::new(String::new()),
            table: TexWriter::new(String::new()),
            header_value: String::new(),
            stack: Vec::new(),
            cells: 0,
            equation: None,
            held: String::new(),
        }
    }

    /// The finished LaTeX body, with any held-back text written out.
    pub fn into_output(self) -> (r: String)
        ensures
            r@ == flush(self@).out,
    {
        let mut e = self;
        e.flush();
        e.writer.into_buffer()
    }

    fn flush(&mut self)
        ensures
            final(self)@ == flush(old(self)@),
    {
        if !self.held.as_str().is_empty() {
            let h = self.held.clone();
            self.held = String::new();
            if self.equation.is_some() {
                self.emit(h.as_str());
            } else {
                let e = escape_tex_text(h.as_str());
                self.emit(e.as_str());
            }
        }
    }

    fn top(&self) -> (r: EventType)
        ensures
            r == top(self@.stack),
    {
        if self.stack.len() == 0 {
            EventType::Text
        } else {
            self.stack[self.stack.len() - 1]
        }
    }

    fn pop_ctx(&mut self)
        ensures
            final(self)@ == pop_ctx(old(self)@),
    {
        if self.stack.len() > 0 {
            self.stack.pop();
        }
    }

    fn emit(&mut self, t: &str)
        ensures
            final(self)@ == emit(old(self)@, t@),
    {
        if stack_has(&self.stack, EventType::Table) {
            self.table.push_str(t);
        } else {
            self.writer.push_str(t);
        }
    }

    fn emit_char(&mut self, c: char)
        ensures
            final(self)@ == emit(old(self)@, seq![c]),
    {
        let ghost b = self@;
        assert(b.table.push(c) =~= b.table + seq![c]);
        assert(b.out.push(c) =~= b.out + seq![c]);
        if stack_has(&self.stack, EventType::Table) {
            self.table.push(c);
        } else {
            self.writer.push(c);
        }
    }

    /// Writes text with its math spans, keeping track of a span left open.
    fn render(&mut self, t: &str)
        ensures
            final(self)@ == rendered(old(self)@, t@),
    {
        let ghost s0 = self@;
        let ghost r0 = render_text(t@, s0.equation);
        let mut eq = self.equation;
        let mut rest = String::from_str(t);
        loop
            invariant
                s0 == old(self)@,
                r0 == render_text(t@, s0.equation),
                self@.equation == s0.equation,
                render_text(rest@, eq).1 == r0.1,
                emit(self@, render_text(rest@, eq).0) == emit(s0, r0.0),
            decreases rest@.len(),
        {
            let ghost before = self@;
            proof {
                lemma_marker_bounds(rest@, 0, eq is None);
            }
            let cs = chars_of(rest.as_str());
            let n = cs.len();
            match eq {
                None => {
                    match split_at_open_marker(rest.as_str()) {
                        None => {
                            let e = escape_tex_text(rest.as_str());
                            self.emit(e.as_str());
                            self.equation = eq;
                            return ;
                        },
                        Some((a, b)) => {
                            let i = chars_of(a.as_str()).len();
                            assert(first_marker(rest@, true) == Some(i as int));
                            assert(i + 2 <= n);
                            let k = closer(cs[i + 1]);
                            let e = escape_tex_text(a.as_str());
                            self.emit(e.as_str());
                            self.emit("\\[");
                            proof {
                                lemma_emit_concat(before, e@, "\\["@);
                                lemma_emit_concat(before, e@ + "\\["@, render_text(b@, Some(k)).0);
                            }
                            eq = Some(k);
                            rest = b;
                        },
                    }
                },
                Some(k) => {
                    match split_at_close_marker(rest.as_str()) {
                        None => {
                            self.emit(rest.as_str());
                            self.equation = eq;
                            return ;
                        },
                        Some((a, b)) => {
                            let i = chars_of(a.as_str()).len();
                            assert(first_marker(rest@, false) == Some(i as int));
                            assert(i + 2 <= n);
                            if cs[i + 1] == k {
                                self.emit(a.as_str());
                                self.emit("\\]");
                                proof {
                                    lemma_emit_concat(before, a@, "\\]"@);
                                    lemma_emit_concat(before, a@ + "\\]"@, render_text(b@, None).0);
                                }
                                eq = None;
                            } else {
                                let head = collect_range(&cs, 0, i + 2);
                                self.emit(head.as_str());
                                proof {
                                    lemma_emit_concat(before, head@, render_text(b@, eq).0);
                                }
                            }
                            rest = b;
                        },
                    }
                },
            }
        }
    }

    fn text(&mut self, t: &str)
        ensures
            final(self)@ == text_event(old(self)@, t@),
    {
        if stack_has(&self.stack, EventType::Header) {
            self.header_value.append(t);
        }
        let k = self.top();
        if k == EventType::Code || k == EventType::BlockQuote {
            self.flush();
            self.emit(t);
        } else {
            let mut u = self.held.clone();
            u.append(t);
            self.held = String::new();
            let cs = chars_of(u.as_str());
            let n = cs.len();
            let hold = n >= 1 && (cs[n - 1] == '\\' || cs[n - 1] == '$') && !(n >= 2 && ((cs[n
                - 2] == '$' && cs[n - 1] == '$') || (cs[n - 2] == '\\' && (cs[n - 1] == '['
                || cs[n - 1] == '(' || cs[n - 1] == ']' || cs[n - 1] == ')'))));
            if hold {
                let body = collect_range(&cs, 0, n - 1);
                assert(body@ =~= u@.drop_last());
                self.render(body.as_str());
                let mut h = String::new();
                push_char(&mut h, cs[n - 1]);
                self.held = h;
            } else {
                self.render(u.as_str());
            }
        }
    }

    fn code(&mut self, c: &Settings, t: &str) -> (r: Result<(), ConvertError>)
        ensures
            code_event(*c, old(self)@, t@) matches Ok(s) ==> r is Ok && final(self)@ == s,
            code_event(*c, old(self)@, t@) matches Err(e) ==> r == Err::<(), ConvertError>(e),
    {
        if stack_has(&self.stack, EventType::Header) {
            let plain = code_text(t, &None);
            let e = escape_tex_text(plain.as_str());
            self.emit("\\texttt{");
            self.emit(e.as_str());
            self.emit("}");
            Ok(())
        } else {
            let code = code_text(t, &c.code_utf8_escape);
            let cs = chars_of(code.as_str());
            match pick_delimiter(&cs) {
                Some(d) => {
                    self.emit("\\lstinline");
                    self.emit_char(d);
                    self.emit(code.as_str());
                    self.emit_char(d);
                    Ok(())
                },
                None => Err(ConvertError::NoListingDelimiter),
            }
        }
    }

    fn start(&mut self, c: &Settings, tag: &Tag, reply: &Reply) -> (r: Result<(), ConvertError>)
        ensures
            start_event(*c, old(self)@, *tag, *reply) matches Ok(s) ==> r is Ok && final(self)@
                == s,
            start_event(*c, old(self)@, *tag, *reply) matches Err(e) ==> r == Err::<
                (),
                ConvertError,
            >(e),
    {
        match tag {
            Tag::Heading(l) => {
                let parent = self.top();
                let level: i64 = *l as i64 + c.chap_offset as i64;
                self.stack.push(EventType::Header);
                self.header_value = String::new();
                self.emit("\n");
                if i32::MIN as i64 <= level && level <= i32::MAX as i64 {
                    if level >= 4 && parent == EventType::BlockQuote {
                        self.emit("\\mbox{} %\n");
                    }
                    self.emit(heading_command(level));
                }
            },
            Tag::Emphasis => {
                self.stack.push(EventType::Emphasis);
                self.emit("\\emph{");
            },
            Tag::Strong => {
                self.stack.push(EventType::Strong);
                self.emit("\\textbf{");
            },
            Tag::BlockQuote => {
                self.stack.push(EventType::BlockQuote);
                self.emit("\n\\begin{quote}\n");
            },
            Tag::List(None) => {
                self.emit("\n\\begin{itemize}\n");
            },
            Tag::List(Some(_)) => {
                self.emit("\\begin{enumerate}\n");
            },
            Tag::Paragraph => {
                self.emit("\n");
            },
            Tag::Item => {
                self.emit("\\item ");
            },
            Tag::Link(url) => {
                if is_absolute_url(url.as_str()) {
                    self.emit("\\href{");
                    self.emit(url.as_str());
                    self.emit("}{");
                } else {
                    self.emit("\\hyperref[");
                    match reply {
                        Reply::Title(t) => {
                            self.emit(t.as_str());
                        },
                        _ => {
                            proof {
                                reveal_strlit("#");
                            }
                            let f = replace_str(url.as_str(), "#", "");
                            self.emit(f.as_str());
                        },
                    }
                    self.emit("]{");
                }
            },
            Tag::Table => {
                self.stack.push(EventType::Table);
                self.table.push_str("}\n\\hline\n\\hline\n\n");
            },
            Tag::TableHead => {
                self.stack.push(EventType::TableHead);
            },
            Tag::TableCell => {
                if self.top() == EventType::TableHead {
                    self.table.push_str("\\bfseries{");
                }
            },
            Tag::Image(p, title) => {
                let root: &str = match &c.assets {
                    Some(a) => a.as_str(),
                    None => "",
                };
                proof {
                    reveal_strlit("");
                    assert(root@ =~= assets_of(*c));
                }
                let src = join_path(root, p.as_str());
                let shown = if is_vector_path(src.as_str()) {
                    match reply {
                        Reply::Done => raster_path(src.as_str()),
                        _ => {
                            return Err(ConvertError::ImageNotRasterized);
                        },
                    }
                } else {
                    src
                };
                self.emit("\\begin{figure}\n\\centering\n\\includegraphics[width=\\textwidth]{");
                self.emit(shown.as_str());
                self.emit("}\n\\caption{");
                self.emit(title.as_str());
                self.emit("}\n\\end{figure}\n");
            },
            Tag::CodeBlock(None) => {
                self.emit("\\begin{lstlisting}\n");
                self.stack.push(EventType::Code);
            },
            Tag::CodeBlock(Some(lang)) => {
                self.emit("\\begin{lstlisting}[language=");
                let st = strip_code_attributes(lang.as_str());
                let w = first_word_of(st.as_str());
                self.emit(w.as_str());
                self.emit("]\n");
                self.stack.push(EventType::Code);
            },
            Tag::TableRow | Tag::Other => {},
        }
        Ok(())
    }

    fn end(&mut self, tag: &Tag)
        ensures
            final(self)@ == end_event(old(self)@, *tag),
            *tag matches Tag::Heading(_) ==> slug_shape(old(self)@.header, kebab_of(old(self)@.header)),
    {
        match tag {
            Tag::Heading(_) => {
                let label = self.header_value.clone();
                self.emit("}\n\\label{");
                self.emit(label.as_str());
                self.emit("}\n\\label{");
                let slug = to_kebab(label.as_str());
                self.emit(slug.as_str());
                self.emit("}\n");
                self.pop_ctx();
            },
            Tag::Emphasis | Tag::Strong => {
                self.emit("}");
                self.pop_ctx();
            },
            Tag::BlockQuote => {
                self.emit("\n\\end{quote}\n\n");
                self.pop_ctx();
            },
            Tag::List(None) => {
                self.emit("\n\\end{itemize}\n");
            },
            Tag::List(Some(_)) => {
                self.emit("\\end{enumerate}\n");
            },
            Tag::Paragraph => {
                self.emit("~\\\\\n");
            },
            Tag::Item => {
                self.emit("\n");
            },
            Tag::Link(_) => {
                self.emit("}");
            },
            Tag::Table => {
                self.table.push_str(TABLE_END);
                let cols = column_spec(self.cells);
                self.writer.push_str(TABLE_OPEN);
                self.writer.push_str(cols.as_str());
                self.writer.push_str(self.table.buffer().as_str());
                self.table = TexWriter::new(String::new());
                self.cells = 0;
                self.pop_ctx();
            },
            Tag::TableHead => {
                self.table.truncate_two();
                self.table.push_str("\\\\\n\\hline\n");
                self.pop_ctx();
            },
            Tag::TableRow => {
                self.table.truncate_two();
                self.table.push_str("\\\\\\arrayrulecolor{lightgray}\\hline\n");
            },
            Tag::TableCell => {
                if self.top() == EventType::TableHead {
                    self.table.push_str("}");
                    if self.cells < u64::MAX {
                        self.cells = self.cells + 1;
                    }
                }
                self.table.push_str(" & ");
            },
            Tag::CodeBlock(_) => {
                self.emit("\n\\end{lstlisting}\n");
                self.pop_ctx();
            },
            Tag::Image(_, _) | Tag::Other => {},
        }
    }

    /// Translates one event, given the reply to the request it made.
    pub fn step(&mut self, c: &Settings, e: &Event, reply: &Reply) -> (r: Result<(), ConvertError>)
        ensures
            step(*c, old(self)@, *e, *reply) matches Ok(s) ==> r is Ok && final(self)@ == s,
            step(*c, old(self)@, *e, *reply) matches Err(x) ==> r == Err::<(), ConvertError>(x),
            *e matches Event::End(Tag::Heading(_)) ==> slug_shape(old(self)@.header, kebab_of(old(self)@.header)),
    {
        if let Event::Text(t) = e {
            self.text(t.as_str());
            return Ok(());
        }
        self.flush();
        match e {
            Event::Start(tag) => self.start(c, tag, reply),
            Event::End(tag) => {
                self.end(tag);
                Ok(())
            },
            Event::Code(t) => self.code(c, t.as_str()),
            Event::SoftBreak => {
                self.emit("\n");
                Ok(())
            },
            Event::HardBreak => {
                self.emit("\\\\\n");
                Ok(())
            },
            Event::Text(_) | Event::Html(_) | Event::Other => Ok(()),
        }
    }
}

} // verus!
