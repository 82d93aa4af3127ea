//! Properties of the translation that hold for all inputs.
use vstd::prelude::*;
use vstd::arithmetic::div_mod::{lemma_fundamental_div_mod, lemma_fundamental_div_mod_converse};
use crate::events::{EventType, Tag, Event, Reply, Request};
use crate::engine::{
    Settings, EngineView, top, emit, text_event, render_text, figure, flush, may_hold, closer_for,
    assets_of, is_web_link, pow10, digit_char, width_digits, width_text, trim_zeros, step,
    column_token, columns, TABLE_OPEN, TABLE_END,
};
use crate::markers::{marker_at, marker_from, first_marker};
use crate::writer::escape_tex;
use crate::strings::{replace_all, ends_with};
use crate::resolve::{first_suffix_match, join, is_vector, raster_of};
use crate::converter::request_ok;
use crate::slug::kebab_of;

verus! {

/// Text free of math markers is written escaped exactly once; written outside
/// a code block, a quote and any open math span, with nothing held back
/// before it, it reaches the output that way, but for a last character that
/// may begin a marker, which waits for the next event.
pub proof fn law_text_escaped_once(s: EngineView, t: Seq<char>)
    requires
        s.equation is None,
        s.held.len() == 0,
        top(s.stack) != EventType::Code,
        top(s.stack) != EventType::BlockQuote,
        first_marker(t, true) is None,
    ensures
        render_text(t, None) == (escape_tex(t), None::<char>),
        !may_hold(t) ==> text_event(s, t).out == emit(s, escape_tex(t)).out,
        !may_hold(t) ==> text_event(s, t).table == emit(s, escape_tex(t)).table,
        text_event(s, t).equation is None,
{
    assert(seq![] + t =~= t);
    if may_hold(t) {
        assert(first_marker(t.drop_last(), true) is None) by {
            lemma_no_marker_prefix(t, t.drop_last(), 0);
        }
    }
}

proof fn lemma_no_marker_prefix(t: Seq<char>, p: Seq<char>, i: int)
    requires
        0 <= i,
        p.len() <= t.len(),
        forall|j: int| 0 <= j < p.len() ==> p[j] == t[j],
        marker_from(t, i, true) is None,
    ensures
        marker_from(p, i, true) is None,
    decreases t.len() - i,
{
    if i + 1 < p.len() {
        assert(p[i] == t[i] && p[i + 1] == t[i + 1]);
        lemma_no_marker_prefix(t, p, i + 1);
    }
}

/// Opening a heading starts its text afresh; text inside it is collected raw;
/// closing it writes two labels: the collected text and the slug of that text.
pub proof fn law_heading_labels(c: Settings, s: EngineView, l: u32, t: Seq<char>, r: Reply)
    ensures
        step(c, s, Event::Start(Tag::Heading(l)), r) matches Ok(s1) && s1.header.len() == 0
            && s1.stack.contains(EventType::Header),
        s.stack.contains(EventType::Header) ==> text_event(s, t).header == s.header + t,
        s.stack.contains(EventType::Header) && !s.stack.contains(EventType::Table) ==> (step(
            c,
            s,
            Event::End(Tag::Heading(l)),
            r,
        ) matches Ok(s3) && s3.out == flush(s).out + "}\n\\label{"@ + s.header
            + "}\n\\label{"@ + kebab_of(s.header) + "}\n"@),
{
    let s1 = step(c, s, Event::Start(Tag::Heading(l)), r)->Ok_0;
    let f = flush(s);
    assert(s1.stack[f.stack.len() as int] == EventType::Header);
}

/// A marker of the given kind that starts `x`, after text `a` that has none,
/// is the first marker of `a + x`.
proof fn lemma_marker_after(a: Seq<char>, x: Seq<char>, opening: bool, i: int)
    requires
        0 <= i <= a.len(),
        marker_from(a, i, opening) is None,
        marker_at(x, 0, opening),
        x[0] == '\\',
    ensures
        marker_from(a + x, i, opening) == Some(a.len() as int),
    decreases a.len() - i,
{
    let s = a + x;
    if i < a.len() {
        assert(s[i] == a[i]);
        if i + 1 < a.len() {
            assert(s[i + 1] == a[i + 1]);
        } else {
            assert(s[i + 1] == x[0]);
        }
        assert(!marker_at(s, i, opening));
        lemma_marker_after(a, x, opening, i + 1);
    } else {
        assert(s[i] == x[0] && s[i + 1] == x[1]);
    }
}

/// Text inside a balanced `\(...\)` span is written verbatim (as display
/// math); the text around it is escaped.
pub proof fn law_math_span_verbatim(a: Seq<char>, m: Seq<char>, b: Seq<char>)
    requires
        first_marker(a, true) is None,
        first_marker(m, false) is None,
        first_marker(b, true) is None,
    ensures
        render_text(a + seq!['\\', '('] + m + seq!['\\', ')'] + b, None) == (escape_tex(a)
            + "\\["@ + m + "\\]"@ + escape_tex(b), None::<char>),
{
    let close = seq!['\\', ')'] + b;
    let inner = m + close;
    let open = seq!['\\', '('] + inner;
    let t = a + open;
    assert(a + seq!['\\', '('] + m + seq!['\\', ')'] + b =~= t);
    assert(open[0] == '\\' && open[1] == '(');
    lemma_marker_after(a, open, true, 0);
    assert(t.subrange(a.len() as int + 2, t.len() as int) =~= inner);
    assert(t.subrange(0, a.len() as int) =~= a);
    assert(close[0] == '\\' && close[1] == ')');
    lemma_marker_after(m, close, false, 0);
    assert(inner.subrange(m.len() as int + 2, inner.len() as int) =~= b);
    assert(inner.subrange(0, m.len() as int) =~= m);
    assert(render_text(b, None) == (escape_tex(b), None::<char>));
    assert(closer_for('(') == ')');
    assert(render_text(inner, Some(')')) == (m + "\\]"@ + escape_tex(b), None::<char>));
    assert(escape_tex(a) + "\\["@ + (m + "\\]"@ + escape_tex(b)) =~= escape_tex(a) + "\\["@ + m
        + "\\]"@ + escape_tex(b));
}

/// A relative link for which no title was found is labelled with the link
/// itself, its `#` characters removed; it never stops the translation.
pub proof fn law_unmatched_link(c: Settings, s: EngineView, url: String, r: Reply)
    requires
        !is_web_link(url@),
        !(r is Title),
    ensures
        step(c, s, Event::Start(Tag::Link(url)), r) == Ok::<EngineView, crate::events::ConvertError>(
            emit(emit(emit(flush(s), "\\hyperref["@), replace_all(url@, "#"@, ""@)), "]{"@),
        ),
{
}

/// When no path is found for a fragment, none of the paths ends with it.
pub proof fn law_no_match(paths: Seq<Seq<char>>, fragment: Seq<char>, i: int)
    requires
        0 <= i,
        first_suffix_match(paths, fragment, i) is None,
    ensures
        forall|j: int| i <= j < paths.len() ==> !ends_with(#[trigger] paths[j], fragment),
    decreases paths.len() - i,
{
    if i < paths.len() {
        law_no_match(paths, fragment, i + 1);
    }
}

/// An image whose path names a vector file is rasterized to its sibling with
/// the `png` extension, and the figure includes that sibling.
pub proof fn law_vector_image(c: Settings, s: EngineView, p: String, title: String, q: Request)
    requires
        is_vector(join(assets_of(c), p@)),
        request_ok(c, Event::Start(Tag::Image(p, title)), q),
    ensures
        ({
            let src = join(assets_of(c), p@);
            &&& q matches Request::Rasterize { source, target } && source@ == src && target@
                == raster_of(src)
            &&& step(c, s, Event::Start(Tag::Image(p, title)), Reply::Done) == Ok::<
                EngineView,
                crate::events::ConvertError,
            >(figure(flush(s), raster_of(src), title@))
            &&& raster_of(src).subrange(0, src.len() - 3) == src.subrange(0, src.len() - 3)
            &&& raster_of(src).len() == src.len()
            &&& !is_vector(raster_of(src))
        }),
{
    let src = join(assets_of(c), p@);
    let r = raster_of(src);
    assert(r.subrange(0, src.len() - 3) =~= src.subrange(0, src.len() - 3));
    assert(r[r.len() - 1] == 'g' && r[r.len() - 2] == 'n');
}

/// The value of a sequence of decimal digits.
pub open spec fn decimal_value(ds: Seq<char>) -> int
    decreases ds.len(),
{
    if ds.len() == 0 {
        0
    } else {
        10 * decimal_value(ds.drop_last()) + digit_of(ds.last())
    }
}

pub open spec fn digit_of(c: char) -> int {
    if c == '1' {
        1
    } else if c == '2' {
        2
    } else if c == '3' {
        3
    } else if c == '4' {
        4
    } else if c == '5' {
        5
    } else if c == '6' {
        6
    } else if c == '7' {
        7
    } else if c == '8' {
        8
    } else if c == '9' {
        9
    } else {
        0
    }
}

proof fn lemma_width_digits_value(n: nat, k: nat)
    requires
        n >= 2,
    ensures
        decimal_value(width_digits(n, k)) == (pow10(k) as int) / (n as int),
    decreases k,
{
    if k > 0 {
        let k1 = (k - 1) as nat;
        lemma_width_digits_value(n, k1);
        let ds = width_digits(n, k);
        assert(ds.drop_last() =~= width_digits(n, k1));
        let a = pow10(k1) as int;
        let ni = n as int;
        let q = a / ni;
        let r = a % ni;
        lemma_fundamental_div_mod(a, ni);
        let d = (10 * r) / ni;
        let e = (10 * r) % ni;
        lemma_fundamental_div_mod(10 * r, ni);
        assert(0 <= r < ni);
        assert(0 <= e < ni);
        assert(10 * a == (10 * q + d) * ni + e) by (nonlinear_arith)
            requires
                a == ni * q + r,
                10 * r == ni * d + e,
        {}
        lemma_fundamental_div_mod_converse(10 * a, ni, 10 * q + d, e);
        assert(0 <= d < 10) by (nonlinear_arith)
            requires
                10 * r == ni * d + e,
                0 <= r < ni,
                0 <= e < ni,
        {}
        lemma_fundamental_div_mod_converse(10 * q + d, 10, q, d);
        assert(pow10(k) == 10 * a);
        assert(ds.last() == digit_char(d));
        assert(digit_of(digit_char(d)) == d);
        assert(decimal_value(ds) == 10 * q + d);
    } else {
        lemma_fundamental_div_mod_converse(1, n as int, 0, 1);
    }
}

/// A column of a table with `n` columns is written `1/n` of the text width:
/// the digits after the point, before trailing zeros are dropped, are those
/// of a value `v` with `v/10^16 <= 1/n < (v+1)/10^16`.
pub proof fn law_column_width(n: nat)
    requires
        n >= 1,
    ensures
        n == 1 ==> width_text(n) == seq!['1'],
        n >= 2 ==> ({
            let ds = width_digits(n, 16);
            &&& width_text(n) == seq!['0', '.'] + trim_zeros(ds)
            &&& decimal_value(ds) * n <= pow10(16) as int
            &&& (pow10(16) as int) < (decimal_value(ds) + 1) * n
        }),
{
    if n >= 2 {
        lemma_width_digits_value(n, 16);
        let a = pow10(16) as int;
        let ni = n as int;
        lemma_fundamental_div_mod(a, ni);
        assert((a / ni) * ni <= a && a < (a / ni + 1) * ni) by (nonlinear_arith)
            requires
                a == ni * (a / ni) + a % ni,
                0 <= a % ni < ni,
        {}
    }
}

/// The column specification for `n` columns is `n` copies of the token for
/// one of `n` columns, one after another.
proof fn lemma_column_tokens(n: nat, k: nat)
    ensures
        columns(n, k).len() == k * column_token(n).len(),
        forall|j: int|
            0 <= j < k ==> #[trigger] columns(n, k).subrange(
                j * column_token(n).len(),
                (j + 1) * column_token(n).len(),
            ) == column_token(n),
    decreases k,
{
    if k > 0 {
        let k1 = (k - 1) as nat;
        lemma_column_tokens(n, k1);
        let l = column_token(n).len() as int;
        let prev = columns(n, k1);
        let all = columns(n, k);
        assert(all == prev + column_token(n));
        assert(k1 * l + l == k * l) by (nonlinear_arith)
            requires
                k1 + 1 == k,
        {}
        assert forall|j: int| 0 <= j < k implies #[trigger] all.subrange(j * l, (j + 1) * l)
            == column_token(n) by {
            if j < k1 {
                assert((j + 1) * l <= k1 * l && 0 <= j * l) by (nonlinear_arith)
                    requires
                        0 <= j < k1,
                        l >= 0,
                {}
                assert(j * l + l == (j + 1) * l) by (nonlinear_arith);
                assert(all.subrange(j * l, (j + 1) * l) =~= prev.subrange(j * l, (j + 1) * l));
            } else {
                assert(j == k1);
                assert(j * l + l == (j + 1) * l) by (nonlinear_arith);
                assert(all.subrange(j * l, (j + 1) * l) =~= column_token(n));
            }
        }
    }
}

/// Each head cell of a table is counted; when the table closes, its column
/// specification is that many tokens, each the one for a column of `1/n` of
/// the text width, and the count starts again from zero.
pub proof fn law_table_columns(c: Settings, s: EngineView, r: Reply)
    ensures
        ({
            let f = flush(s);
            let n = f.cells as nat;
            let l = column_token(n).len();
            &&& top(s.stack) == EventType::TableHead && s.cells < u64::MAX ==> (step(
                c,
                s,
                Event::End(Tag::TableCell),
                r,
            ) matches Ok(s1) && s1.cells == s.cells + 1)
            &&& top(s.stack) != EventType::TableHead ==> (step(
                c,
                s,
                Event::End(Tag::TableCell),
                r,
            ) matches Ok(s1) && s1.cells == s.cells)
            &&& step(c, s, Event::End(Tag::Table), r) matches Ok(s2) && s2.out == f.out
                + TABLE_OPEN@ + columns(n, n) + f.table + TABLE_END@ && s2.cells == 0
            &&& columns(n, n).len() == n * l
            &&& forall|j: int|
                0 <= j < n ==> #[trigger] columns(n, n).subrange(j * l, (j + 1) * l) == column_token(n)
        }),
{
    let f = flush(s);
    lemma_column_tokens(f.cells as nat, f.cells as nat);
    assert(f.out + TABLE_OPEN@ + columns(f.cells as nat, f.cells as nat) + (f.table + TABLE_END@)
        =~= f.out + TABLE_OPEN@ + columns(f.cells as nat, f.cells as nat) + f.table
        + TABLE_END@);
}

/// How one character of text without backslashes is escaped.
pub open spec fn escape_char(c: char) -> Seq<char> {
    if c == '&' || c == '_' || c == '%' || c == '$' || c == '#' {
        seq!['\\', c]
    } else if c == '\u{2014}' {
        seq!['-', '-', '-']
    } else {
        seq![c]
    }
}

/// Each character of `s` escaped on its own, in order.
pub open spec fn escape_chars(s: Seq<char>) -> Seq<char>
    decreases s.len(),
{
    if s.len() == 0 {
        seq![]
    } else {
        escape_chars(s.drop_last()) + escape_char(s.last())
    }
}

proof fn lemma_replace_absent(y: Seq<char>, p: Seq<char>, r: Seq<char>)
    requires
        p.len() > 0,
        forall|i: int| 0 <= i < y.len() ==> y[i] != p[0],
    ensures
        replace_all(y, p, r) == y,
    decreases y.len(),
{
    if y.len() >= p.len() {
        assert(y.subrange(0, p.len() as int)[0] != p[0]);
        lemma_replace_absent(y.drop_first(), p, r);
        assert(seq![y[0]] + y.drop_first() =~= y);
    }
}

proof fn lemma_replace_one_concat(a: Seq<char>, y: Seq<char>, c: char, r: Seq<char>)
    ensures
        replace_all(a + y, seq![c], r) == replace_all(a, seq![c], r) + replace_all(y, seq![c], r),
    decreases a.len(),
{
    let p = seq![c];
    if a.len() == 0 {
        assert(a + y =~= y);
        assert(replace_all(a, p, r) =~= Seq::<char>::empty());
        assert(Seq::<char>::empty() + replace_all(y, p, r) =~= replace_all(y, p, r));
    } else {
        let s = a + y;
        lemma_replace_one_concat(a.drop_first(), y, c, r);
        assert(s.subrange(1, s.len() as int) =~= a.drop_first() + y);
        assert(s.drop_first() =~= a.drop_first() + y);
        assert(a.subrange(1, a.len() as int) =~= a.drop_first());
        assert(s.subrange(0, 1) =~= seq![a[0]]);
        assert(a.subrange(0, 1) =~= seq![a[0]]);
        let x = replace_all(a.drop_first(), p, r);
        let z = replace_all(y, p, r);
        assert(r + (x + z) =~= (r + x) + z);
        assert(seq![a[0]] + (x + z) =~= (seq![a[0]] + x) + z);
    }
}

proof fn lemma_replace_one_char(x: char, c: char, r: Seq<char>)
    ensures
        replace_all(seq![x], seq![c], r) == (if x == c {
            r
        } else {
            seq![x]
        }),
{
    let s = seq![x];
    assert(s.subrange(0, 1) =~= s);
    assert(s.subrange(1, 1) =~= Seq::<char>::empty());
    assert(s.drop_first() =~= Seq::<char>::empty());
    assert(replace_all(Seq::<char>::empty(), seq![c], r) =~= Seq::<char>::empty());
    assert(r + Seq::<char>::empty() =~= r);
    assert(s + Seq::<char>::empty() =~= s);
}

proof fn lemma_literals()
    ensures
        "\\<"@ =~= seq!['\\', '<'],
        "\\"@ =~= seq!['\\'],
        "&"@ =~= seq!['&'],
        "_"@ =~= seq!['_'],
        "%"@ =~= seq!['%'],
        "$"@ =~= seq!['$'],
        "\u{2014}"@ =~= seq!['\u{2014}'],
        "#"@ =~= seq!['#'],
        "\\&"@ =~= seq!['\\', '&'],
        "\\_"@ =~= seq!['\\', '_'],
        "\\%"@ =~= seq!['\\', '%'],
        "\\$"@ =~= seq!['\\', '$'],
        "---"@ =~= seq!['-', '-', '-'],
        "\\#"@ =~= seq!['\\', '#'],
{
    reveal_strlit("\\<");
    reveal_strlit("\\");
    reveal_strlit("&");
    reveal_strlit("_");
    reveal_strlit("%");
    reveal_strlit("$");
    reveal_strlit("\u{2014}");
    reveal_strlit("#");
    reveal_strlit("\\&");
    reveal_strlit("\\_");
    reveal_strlit("\\%");
    reveal_strlit("\\$");
    reveal_strlit("---");
    reveal_strlit("\\#");
}

proof fn lemma_escape_concat(a: Seq<char>, y: Seq<char>)
    requires
        forall|i: int| 0 <= i < a.len() ==> a[i] != '\\',
        forall|i: int| 0 <= i < y.len() ==> y[i] != '\\',
    ensures
        escape_tex(a + y) == escape_tex(a) + escape_tex(y),
{
    lemma_literals();
    let ay = a + y;
    assert forall|i: int| 0 <= i < ay.len() implies ay[i] != '\\' by {
        if i < a.len() {
            assert(ay[i] == a[i]);
        } else {
            assert(ay[i] == y[i - a.len()]);
        }
    }
    lemma_replace_absent(ay, "\\<"@, "<"@);
    lemma_replace_absent(a, "\\<"@, "<"@);
    lemma_replace_absent(y, "\\<"@, "<"@);
    lemma_replace_absent(ay, "\\"@, "\\\\"@);
    lemma_replace_absent(a, "\\"@, "\\\\"@);
    lemma_replace_absent(y, "\\"@, "\\\\"@);
    lemma_replace_one_concat(a, y, '&', "\\&"@);
    let a3 = replace_all(a, "&"@, "\\&"@);
    let y3 = replace_all(y, "&"@, "\\&"@);
    lemma_replace_one_concat(a3, y3, '_', "\\_"@);
    let a4 = replace_all(a3, "_"@, "\\_"@);
    let y4 = replace_all(y3, "_"@, "\\_"@);
    lemma_replace_one_concat(a4, y4, '%', "\\%"@);
    let a5 = replace_all(a4, "%"@, "\\%"@);
    let y5 = replace_all(y4, "%"@, "\\%"@);
    lemma_replace_one_concat(a5, y5, '$', "\\$"@);
    let a6 = replace_all(a5, "$"@, "\\$"@);
    let y6 = replace_all(y5, "$"@, "\\$"@);
    lemma_replace_one_concat(a6, y6, '\u{2014}', "---"@);
    let a7 = replace_all(a6, "\u{2014}"@, "---"@);
    let y7 = replace_all(y6, "\u{2014}"@, "---"@);
    lemma_replace_one_concat(a7, y7, '#', "\\#"@);
}

/// After one replacement of the chain, text that is one character long, or
/// that lacks the replaced character.
proof fn lemma_replace_step(s: Seq<char>, c: char, r: Seq<char>)
    ensures
        s.len() == 1 ==> replace_all(s, seq![c], r) == (if s[0] == c {
            r
        } else {
            s
        }),
        (forall|i: int| 0 <= i < s.len() ==> s[i] != c) ==> replace_all(s, seq![c], r) == s,
{
    if s.len() == 1 {
        assert(s =~= seq![s[0]]);
        lemma_replace_one_char(s[0], c, r);
    }
    if forall|i: int| 0 <= i < s.len() ==> s[i] != c {
        lemma_replace_absent(s, seq![c], r);
    }
}

proof fn lemma_escape_one(x: char)
    requires
        x != '\\',
    ensures
        escape_tex(seq![x]) == escape_char(x),
{
    lemma_literals();
    let s0 = seq![x];
    lemma_replace_absent(s0, "\\<"@, "<"@);
    lemma_replace_absent(s0, "\\"@, "\\\\"@);
    lemma_replace_step(s0, '&', "\\&"@);
    let s3 = replace_all(s0, "&"@, "\\&"@);
    lemma_replace_step(s3, '_', "\\_"@);
    let s4 = replace_all(s3, "_"@, "\\_"@);
    lemma_replace_step(s4, '%', "\\%"@);
    let s5 = replace_all(s4, "%"@, "\\%"@);
    lemma_replace_step(s5, '$', "\\$"@);
    let s6 = replace_all(s5, "$"@, "\\$"@);
    lemma_replace_step(s6, '\u{2014}', "---"@);
    let s7 = replace_all(s6, "\u{2014}"@, "---"@);
    lemma_replace_step(s7, '#', "\\#"@);
}

/// Text without backslashes is escaped character by character: each of
/// `&`, `_`, `%`, `$`, `#` gets exactly one backslash in front, an em-dash
/// becomes `---`, and every other character stays as it is; a backslash
/// that escaping puts in is never escaped again.
pub proof fn law_escape_by_character(md: Seq<char>)
    requires
        forall|i: int| 0 <= i < md.len() ==> md[i] != '\\',
    ensures
        escape_tex(md) == escape_chars(md),
    decreases md.len(),
{
    lemma_literals();
    if md.len() == 0 {
        lemma_replace_absent(md, "\\<"@, "<"@);
        lemma_replace_absent(md, "\\"@, "\\\\"@);
        lemma_replace_absent(md, "&"@, "\\&"@);
        lemma_replace_absent(md, "_"@, "\\_"@);
        lemma_replace_absent(md, "%"@, "\\%"@);
        lemma_replace_absent(md, "$"@, "\\$"@);
        lemma_replace_absent(md, "\u{2014}"@, "---"@);
        lemma_replace_absent(md, "#"@, "\\#"@);
    } else {
        let a = md.drop_last();
        let x = md.last();
        law_escape_by_character(a);
        assert(a + seq![x] =~= md);
        lemma_escape_concat(a, seq![x]);
        lemma_escape_one(x);
    }
}

} // verus!
