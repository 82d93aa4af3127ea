//! An append-only LaTeX text sink.
use vstd::prelude::*;
use vstd::string::StringExecFns;
use crate::strings::{replace_all, replace_str, push_char, pop_char};

verus! {

/// The LaTeX-safe form of plain text: a literal `\<` becomes `<`; then
/// backslash, `&`, `_`, `%`, `$` and `#` are escaped with a backslash and an
/// em-dash becomes `---`. Each replacement applies to the result of the one
/// before it, in this order, so a backslash that escaping puts in is never
/// escaped again.
pub open spec fn escape_tex(md: Seq<char>) -> Seq<char> {
    let s = replace_all(md, "\\<"@, "<"@);
    let s = replace_all(s, "\\"@, "\\\\"@);
    let s = replace_all(s, "&"@, "\\&"@);
    let s = replace_all(s, "_"@, "\\_"@);
    let s = replace_all(s, "%"@, "\\%"@);
    let s = replace_all(s, "$"@, "\\$"@);
    let s = replace_all(s, "\u{2014}"@, "---"@);
    replace_all(s, "#"@, "\\#"@)
}

/// Escapes the characters of `md` that LaTeX reads as markup.
pub fn escape_tex_text(md: &str) -> (r: String)
    ensures
        r@ == escape_tex(md@),
{
    proof {
        reveal_strlit("\\<");
        reveal_strlit("\\");
        reveal_strlit("&");
        reveal_strlit("_");
        reveal_strlit("%");
        reveal_strlit("$");
        reveal_strlit("\u{2014}");
        reveal_strlit("#");
    }
    let s = replace_str(md, "\\<", "<");
    let s = replace_str(s.as_str(), "\\", "\\\\");
    let s = replace_str(s.as_str(), "&", "\\&");
    let s = replace_str(s.as_str(), "_", "\\_");
    let s = replace_str(s.as_str(), "%", "\\%");
    let s = replace_str(s.as_str(), "$", "\\$");
    let s = replace_str(s.as_str(), "\u{2014}", "---");
    replace_str(s.as_str(), "#", "\\#")
}

/// Each line followed by a line feed, in order.
pub open spec fn lines_text(ls: Seq<Seq<char>>) -> Seq<char>
    decreases ls.len(),
{
    if ls.len() == 0 {
        seq![]
    } else {
        lines_text(ls.drop_last()) + ls.last() + seq!['\n']
    }
}

/// `s` without its last two characters.
pub open spec fn drop_two(s: Seq<char>) -> Seq<char> {
    if s.len() >= 2 {
        s.subrange(0, s.len() - 2)
    } else {
        seq![]
    }
}

/// Text sink over a `String`; its view is the text written so far.
pub struct TexWriter {
    buffer: String,
}

impl View for TexWriter {
    type V = Seq<char>;

    closed spec fn view(&self) -> Seq<char> {
        self.buffer@
    }
}

impl TexWriter {
    pub fn new(buffer: String) -> (r: Self)
        ensures
            r@ == buffer@,
    {
        TexWriter { buffer }
    }

    pub fn new_line(&mut self) -> (r: &mut Self)
        ensures
            (*r)@ == old(self)@.push('\n'),
            final(self)@ == final(r)@,
    {
        push_char(&mut self.buffer, '\n');
        self
    }

    pub fn back_slash(&mut self) -> (r: &mut Self)
        ensures
            (*r)@ == old(self)@.push('\\'),
            final(self)@ == final(r)@,
    {
        push_char(&mut self.buffer, '\\');
        self
    }

    pub fn push_str(&mut self, s: &str) -> (r: &mut Self)
        ensures
            (*r)@ == old(self)@ + s@,
            final(self)@ == final(r)@,
    {
        self.buffer.append(s);
        self
    }

    pub fn escape_str(&mut self, s: &str) -> (r: &mut Self)
        ensures
            (*r)@ == old(self)@ + escape_tex(s@),
            final(self)@ == final(r)@,
    {
        let escaped = escape_tex_text(s);
        self.push_str(escaped.as_str())
    }

    pub fn push(&mut self, c: char) -> (r: &mut Self)
        ensures
            (*r)@ == old(self)@.push(c),
            final(self)@ == final(r)@,
    {
        push_char(&mut self.buffer, c);
        self
    }

    /// Appends each line followed by a line feed.
    pub fn push_lines(&mut self, lines: &[&str]) -> (r: &mut Self)
        ensures
            (*r)@ == old(self)@ + lines_text(lines@.map_values(|l: &str| l@)),
            final(self)@ == final(r)@,
    {
        let ghost ls = lines@.map_values(|l: &str| l@);
        let ghost start = self@;
        let mut i: usize = 0;
        while i < lines.len()
            invariant
                i <= lines@.len(),
                ls == lines@.map_values(|l: &str| l@),
                self@ == start + lines_text(ls.subrange(0, i as int)),
            decreases lines@.len() - i,
        {
            self.push_str(lines[i]);
            push_char(&mut self.buffer, '\n');
            assert(ls.subrange(0, i + 1).drop_last() =~= ls.subrange(0, i as int));
            assert(self@ =~= start + lines_text(ls.subrange(0, i + 1)));
            i = i + 1;
        }
        assert(ls.subrange(0, lines@.len() as int) =~= ls);
        self
    }

    /// Drops the last two characters, or all of them when there are fewer.
    pub fn truncate_two(&mut self)
        ensures
            final(self)@ == drop_two(old(self)@),
    {
        pop_char(&mut self.buffer);
        pop_char(&mut self.buffer);
    }

    pub fn buffer(&self) -> (r: &String)
        ensures
            r@ == self@,
    {
        &self.buffer
    }

    pub fn into_buffer(self) -> (r: String)
        ensures
            r@ == self@,
    {
        self.buffer
    }
}

} // verus!
