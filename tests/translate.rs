use md2tex::converter::{splice_body, request_for};
use md2tex::engine::Settings;
use md2tex::translator::{width_string, column_spec, code_text, pick_delimiter};
use md2tex::{ConvertError, Converter, Event, Reply, Request, Tag};

fn text(s: &str) -> Event {
    Event::Text(s.to_string())
}

fn run_plain(events: Vec<Event>) -> String {
    let n = events.len();
    Converter::new(events).run(&vec![Reply::Done; n]).unwrap()
}

const TABLE_HEAD: &str = "\n\\begingroup\n\\setlength{\\LTleft}{-20cm plus -1fill}\n\\setlength{\\LTright}{\\LTleft}\n\\begin{longtable}{";
const TABLE_TAIL: &str = "\\arrayrulecolor{black}\\hline\n\\end{longtable}\n\\endgroup\n\n";

#[test]
fn heading_and_emphasis_paragraph() {
    let events = vec![
        Event::Start(Tag::Heading(1)),
        text("Title"),
        Event::End(Tag::Heading(1)),
        Event::Start(Tag::Paragraph),
        text("Hello "),
        Event::Start(Tag::Emphasis),
        text("world"),
        Event::End(Tag::Emphasis),
        text("."),
        Event::End(Tag::Paragraph),
    ];
    let out = run_plain(events);
    assert_eq!(
        out,
        "\n\\section{Title}\n\\label{Title}\n\\label{title}\n\nHello \\emph{world}.~\\\\\n"
    );
}

#[test]
fn fenced_code_language_drops_attributes() {
    let events = vec![
        Event::Start(Tag::CodeBlock(Some("rust,editable".to_string()))),
        text("fn main() {}\n"),
        Event::End(Tag::CodeBlock(Some("rust,editable".to_string()))),
    ];
    assert_eq!(
        run_plain(events),
        "\\begin{lstlisting}[language=rust]\nfn main() {}\n\n\\end{lstlisting}\n"
    );
}

#[test]
fn fenced_code_language_first_word() {
    let events = vec![Event::Start(Tag::CodeBlock(Some("  python extra".to_string())))];
    assert_eq!(run_plain(events), "\\begin{lstlisting}[language=python]\n");
}

#[test]
fn indented_code_has_no_language() {
    let events = vec![
        Event::Start(Tag::CodeBlock(None)),
        text("a_b & c\n"),
        Event::End(Tag::CodeBlock(None)),
    ];
    assert_eq!(
        run_plain(events),
        "\\begin{lstlisting}\na_b & c\n\n\\end{lstlisting}\n"
    );
}

fn cell(s: &str) -> Vec<Event> {
    vec![Event::Start(Tag::TableCell), text(s), Event::End(Tag::TableCell)]
}

fn table(head: &[&str], rows: &[&[&str]]) -> Vec<Event> {
    let mut ev = vec![Event::Start(Tag::Table), Event::Start(Tag::TableHead)];
    for h in head {
        ev.extend(cell(h));
    }
    ev.push(Event::End(Tag::TableHead));
    for r in rows {
        ev.push(Event::Start(Tag::TableRow));
        for c in r.iter() {
            ev.extend(cell(c));
        }
        ev.push(Event::End(Tag::TableRow));
    }
    ev.push(Event::End(Tag::Table));
    ev
}

#[test]
fn two_column_table() {
    let out = run_plain(table(&["a", "b"], &[&["1", "2"], &["3", "4"]]));
    let expected = format!(
        "{}C{{0.5\\textwidth}} C{{0.5\\textwidth}} }}\n\\hline\n\\hline\n\n\\bfseries{{a}} & \\bfseries{{b}} \\\\\n\\hline\n1 & 2 \\\\\\arrayrulecolor{{lightgray}}\\hline\n3 & 4 \\\\\\arrayrulecolor{{lightgray}}\\hline\n{}",
        TABLE_HEAD, TABLE_TAIL
    );
    assert_eq!(out, expected);
    assert_eq!(out.matches("\\textwidth}").count(), 2);
}

#[test]
fn three_column_table_widths() {
    let out = run_plain(table(&["a", "b", "c"], &[]));
    assert_eq!(out.matches("C{0.3333333333333333\\textwidth} ").count(), 3);
    assert!(out.starts_with(TABLE_HEAD));
}

#[test]
fn table_text_is_escaped_and_kept_out_of_body_until_close() {
    let out = run_plain(table(&["a_b"], &[&["50%"]]));
    assert!(out.contains("\\bfseries{a\\_b} \\\\\n"));
    assert!(out.contains("50\\% \\\\\\arrayrulecolor"));
    assert!(out.contains("{C{1\\textwidth} }"));
}

#[test]
fn column_widths() {
    assert_eq!(width_string(1), "1");
    assert_eq!(width_string(2), "0.5");
    assert_eq!(width_string(3), "0.3333333333333333");
    assert_eq!(width_string(4), "0.25");
    assert_eq!(width_string(8), "0.125");
    assert_eq!(column_spec(2), "C{0.5\\textwidth} C{0.5\\textwidth} ");
    assert_eq!(column_spec(0), "");
}

#[test]
fn math_span_is_verbatim() {
    let out = run_plain(vec![text("see \\(x_1\\) now_")]);
    assert_eq!(out, "see \\[x_1\\] now\\_");
}

#[test]
fn math_span_across_events() {
    let out = run_plain(vec![text("a $$x_"), text("y$$ b_")]);
    assert_eq!(out, "a \\[x_y\\] b\\_");
}

#[test]
fn text_escapes() {
    let out = run_plain(vec![text("a_b & 50% #1 \\x")]);
    assert_eq!(out, "a\\_b \\& 50\\% \\#1 \\\\x");
}

#[test]
fn quote_text_is_raw() {
    let out = run_plain(vec![
        Event::Start(Tag::BlockQuote),
        text("a_b"),
        Event::End(Tag::BlockQuote),
    ]);
    assert_eq!(out, "\n\\begin{quote}\na_b\n\\end{quote}\n\n");
}

#[test]
fn heading_levels_and_offset() {
    let ev = |l: u32| vec![Event::Start(Tag::Heading(l))];
    let conv = |l: u32, off: i32| {
        Converter::new(ev(l))
            .chapter_level_offset(off)
            .run(&vec![])
            .unwrap()
    };
    assert_eq!(conv(1, -1), "\n\\chapter{");
    assert_eq!(conv(1, 0), "\n\\section{");
    assert_eq!(conv(2, 0), "\n\\subsection{");
    assert_eq!(conv(3, 0), "\n\\subsubsection{");
    assert_eq!(conv(4, 0), "\n\\paragraph{");
    assert_eq!(conv(5, 0), "\n\\subparagraph{");
    assert_eq!(conv(6, 3), "\n\\subparagraph{");
    assert_eq!(conv(1, i32::MIN), "\n\\chapter{");
    assert_eq!(conv(2, i32::MAX), "\n");
    assert_eq!(conv(u32::MAX, 0), "\n");
    assert_eq!(conv(u32::MAX, i32::MIN), "\n\\subparagraph{");
}

#[test]
fn paragraph_heading_in_quote_gets_guard() {
    let out = run_plain(vec![
        Event::Start(Tag::BlockQuote),
        Event::Start(Tag::Heading(4)),
    ]);
    assert_eq!(out, "\n\\begin{quote}\n\n\\mbox{} %\n\\paragraph{");
    let out = run_plain(vec![
        Event::Start(Tag::BlockQuote),
        Event::Start(Tag::Heading(3)),
    ]);
    assert_eq!(out, "\n\\begin{quote}\n\n\\subsubsection{");
}

#[test]
fn heading_slug_label() {
    let out = run_plain(vec![
        Event::Start(Tag::Heading(2)),
        text("Hello World!"),
        Event::End(Tag::Heading(2)),
    ]);
    assert_eq!(
        out,
        "\n\\subsection{Hello World!}\n\\label{Hello World!}\n\\label{hello-world}\n"
    );
}

#[test]
fn heading_text_over_several_events() {
    let out = run_plain(vec![
        Event::Start(Tag::Heading(1)),
        text("Big "),
        Event::Start(Tag::Strong),
        text("Idea"),
        Event::End(Tag::Strong),
        Event::End(Tag::Heading(1)),
    ]);
    assert!(out.ends_with("\\label{Big Idea}\n\\label{big-idea}\n"));
}

#[test]
fn lists_and_breaks() {
    let out = run_plain(vec![
        Event::Start(Tag::List(None)),
        Event::Start(Tag::Item),
        text("x"),
        Event::SoftBreak,
        text("y"),
        Event::HardBreak,
        Event::End(Tag::Item),
        Event::End(Tag::List(None)),
        Event::Start(Tag::List(Some(1))),
        Event::Start(Tag::Item),
        Event::End(Tag::Item),
        Event::End(Tag::List(Some(1))),
        Event::Start(Tag::Strong),
        Event::End(Tag::Strong),
        Event::Html("<br>".to_string()),
        Event::Other,
    ]);
    assert_eq!(
        out,
        "\n\\begin{itemize}\n\\item x\ny\\\\\n\n\n\\end{itemize}\n\\begin{enumerate}\n\\item \n\\end{enumerate}\n\\textbf{}"
    );
}

#[test]
fn web_link() {
    let out = run_plain(vec![
        Event::Start(Tag::Link("https://nasa.gov".to_string())),
        text("NASA"),
        Event::End(Tag::Link("https://nasa.gov".to_string())),
    ]);
    assert_eq!(out, "\\href{https://nasa.gov}{NASA}");
}

#[test]
fn relative_link_without_match_uses_fragment() {
    let events = vec![
        Event::Start(Tag::Link("../chapter.md#intro".to_string())),
        text("see"),
        Event::End(Tag::Link(String::new())),
    ];
    let conv = Converter::new(events).assets("book");
    let reqs = conv.requests();
    assert_eq!(
        reqs[0],
        Request::FindTitle {
            root: "book".to_string(),
            fragment: "chapter.md#intro".to_string()
        }
    );
    let out = conv.run(&vec![Reply::NotFound, Reply::Done, Reply::Done]).unwrap();
    assert_eq!(out, "\\hyperref[../chapter.mdintro]{see}");
}

#[test]
fn relative_link_with_title() {
    let events = vec![Event::Start(Tag::Link("intro.md".to_string()))];
    let out = Converter::new(events)
        .run(&vec![Reply::Title("Introduction".to_string())])
        .unwrap();
    assert_eq!(out, "\\hyperref[Introduction]{");
}

#[test]
fn missing_replies_fall_back() {
    let events = vec![Event::Start(Tag::Link("a#b".to_string()))];
    let out = Converter::new(events).run(&vec![]).unwrap();
    assert_eq!(out, "\\hyperref[ab]{");
}

#[test]
fn vector_image_is_rasterized_sibling() {
    let events = vec![Event::Start(Tag::Image(
        "img/diagram.svg".to_string(),
        "A diagram".to_string(),
    ))];
    let conv = Converter::new(events).assets("assets/");
    let reqs = conv.requests();
    assert_eq!(
        reqs,
        vec![Request::Rasterize {
            source: "assets/img/diagram.svg".to_string(),
            target: "assets/img/diagram.png".to_string()
        }]
    );
    let out = conv.run(&vec![Reply::Done]).unwrap();
    assert_eq!(
        out,
        "\\begin{figure}\n\\centering\n\\includegraphics[width=\\textwidth]{assets/img/diagram.png}\n\\caption{A diagram}\n\\end{figure}\n"
    );
}

#[test]
fn failed_rasterization_stops() {
    let events = vec![Event::Start(Tag::Image("d.svg".to_string(), String::new()))];
    let r = Converter::new(events).run(&vec![Reply::Failed]);
    assert_eq!(r, Err(ConvertError::ImageNotRasterized));
}

#[test]
fn raster_image_is_embedded_unchanged() {
    let events = vec![Event::Start(Tag::Image("pic.png".to_string(), "P".to_string()))];
    let conv = Converter::new(events).assets("a");
    assert_eq!(conv.requests(), vec![Request::Nothing]);
    let out = conv.run(&vec![Reply::Failed]).unwrap();
    assert!(out.contains("{a/pic.png}"));
    let none = Converter::new(vec![Event::Start(Tag::Image(
        "/abs/x.svg.bak".to_string(),
        String::new(),
    ))]);
    assert_eq!(none.requests(), vec![Request::Nothing]);
}

#[test]
fn inline_code_delimiters() {
    assert_eq!(run_plain(vec![Event::Code("a+b".to_string())]), "\\lstinline|a+b|");
    assert_eq!(run_plain(vec![Event::Code("a|b".to_string())]), "\\lstinline!a|b!");
    assert_eq!(
        run_plain(vec![Event::Code("|!?+".to_string())]),
        "\\lstinline@|!?+@"
    );
    let r = Converter::new(vec![Event::Code("|!?+@".to_string())]).run(&vec![]);
    assert_eq!(r, Err(ConvertError::NoListingDelimiter));
}

#[test]
fn inline_code_in_heading_is_escaped() {
    let out = run_plain(vec![
        Event::Start(Tag::Heading(1)),
        Event::Code("a#b_c".to_string()),
    ]);
    assert_eq!(out, "\n\\section{\\texttt{a\\#b\\_c}");
}

#[test]
fn inline_code_utf8_escape_and_normalization() {
    let out = Converter::new(vec![Event::Code("é…x\u{FFFD}".to_string())])
        .code_utf8_escape("(*@", "@*)")
        .run(&vec![])
        .unwrap();
    assert_eq!(out, "\\lstinline|(*@é@*)...x?|");
    assert_eq!(code_text("é", &None), "é");
    assert_eq!(pick_delimiter(&vec!['|', '!']), Some('?'));
}

#[test]
fn inline_code_in_table_goes_to_table() {
    let mut events = vec![Event::Start(Tag::Table), Event::Start(Tag::TableHead)];
    events.push(Event::Start(Tag::TableCell));
    events.push(Event::Code("x".to_string()));
    events.push(Event::End(Tag::TableCell));
    events.push(Event::End(Tag::TableHead));
    events.push(Event::End(Tag::Table));
    let out = run_plain(events);
    assert!(out.starts_with(TABLE_HEAD));
    assert!(out.contains("\\bfseries{\\lstinline|x|} \\\\\n\\hline\n"));
}

#[test]
fn template_splice() {
    let out = Converter::new(vec![text("body")])
        .template("pre\\begin{document}post")
        .run(&vec![])
        .unwrap();
    assert_eq!(out, "pre\\begin{document}bodypost");
    let r = Converter::new(vec![text("body")])
        .template("no marker")
        .run(&vec![]);
    assert_eq!(r, Err(ConvertError::MissingDocumentBegin));
    assert_eq!(
        splice_body("a\\begin{document}b\\begin{document}", "X"),
        Some("a\\begin{document}Xb\\begin{document}".to_string())
    );
}

#[test]
fn no_template_returns_body() {
    assert_eq!(run_plain(vec![]), "");
}

#[test]
fn request_for_web_link_is_nothing() {
    let s = Settings {
        chap_offset: 0,
        assets: None,
        code_utf8_escape: None,
    };
    let e = Event::Start(Tag::Link("http://x".to_string()));
    assert_eq!(request_for(&s, &e), Request::Nothing);
    let e = Event::Start(Tag::Image("d.svg".to_string(), String::new()));
    assert_eq!(
        request_for(&s, &e),
        Request::Rasterize {
            source: "d.svg".to_string(),
            target: "d.png".to_string()
        }
    );
}

#[test]
fn math_after_non_ascii_text() {
    let out = run_plain(vec![text("é_$$x_$$ü_")]);
    assert_eq!(out, "é\\_\\[x_\\]ü\\_");
}

#[test]
fn unclosed_math_stays_raw() {
    let out = run_plain(vec![text("a \\[x_"), text("y_")]);
    assert_eq!(out, "a \\[x_y_");
}

#[test]
fn code_language_attribute_stops_at_line_end() {
    let events = vec![Event::Start(Tag::CodeBlock(Some("c,x\ny".to_string())))];
    assert_eq!(run_plain(events), "\\begin{lstlisting}[language=c]\n");
}

#[test]
fn math_marker_split_across_events() {
    let out = run_plain(vec![text("see \\"), text("(x_1\\"), text(") now_")]);
    assert_eq!(out, "see \\[x_1\\] now\\_");
    let out = run_plain(vec![text("a $"), text("$y_$$")]);
    assert_eq!(out, "a \\[y_\\]");
}

#[test]
fn held_character_is_written_before_next_event() {
    let out = run_plain(vec![
        Event::Start(Tag::Paragraph),
        text("cost 5$"),
        Event::End(Tag::Paragraph),
    ]);
    assert_eq!(out, "\ncost 5\\$~\\\\\n");
    let out = run_plain(vec![text("end\\")]);
    assert_eq!(out, "end\\\\");
    let out = run_plain(vec![text("\\"), text("<b")]);
    assert_eq!(out, "<b");
}

#[test]
fn out_of_range_heading_has_no_command() {
    let out = Converter::new(vec![
        Event::Start(Tag::BlockQuote),
        Event::Start(Tag::Heading(2)),
        text("A"),
        Event::End(Tag::Heading(2)),
    ])
    .chapter_level_offset(i32::MAX)
    .run(&vec![])
    .unwrap();
    assert_eq!(out, "\n\\begin{quote}\n\nA}\n\\label{A}\n\\label{a}\n");
}

#[test]
fn links_with_a_scheme_are_web_links() {
    let out = run_plain(vec![Event::Start(Tag::Link("mailto:a@b.org".to_string()))]);
    assert_eq!(out, "\\href{mailto:a@b.org}{");
    let out = run_plain(vec![Event::Start(Tag::Link("ftp://x.org/f".to_string()))]);
    assert_eq!(out, "\\href{ftp://x.org/f}{");
    let conv = Converter::new(vec![Event::Start(Tag::Link("httpx.md".to_string()))]);
    assert_eq!(
        conv.requests(),
        vec![Request::FindTitle {
            root: String::new(),
            fragment: "httpx.md".to_string()
        }]
    );
    assert_eq!(conv.run(&vec![Reply::NotFound]).unwrap(), "\\hyperref[httpx.md]{");
    let out = run_plain(vec![Event::Start(Tag::Link("#part".to_string()))]);
    assert_eq!(out, "\\hyperref[part]{");
}

#[test]
fn math_span_closes_only_on_its_own_closer() {
    let out = run_plain(vec![text("$$a\\]b$$c_")]);
    assert_eq!(out, "\\[a\\]b\\]c\\_");
    let out = run_plain(vec![text("\\(x$$y\\)_")]);
    assert_eq!(out, "\\[x$$y\\]\\_");
}

#[test]
fn em_dash_and_less_than() {
    let out = run_plain(vec![text("a\u{2014}b x\\<y")]);
    assert_eq!(out, "a---b x<y");
}

#[test]
fn heading_slug_is_not_empty() {
    let out = run_plain(vec![
        Event::Start(Tag::Heading(1)),
        text("?? 42 !!"),
        Event::End(Tag::Heading(1)),
    ]);
    assert!(out.ends_with("\\label{?? 42 !!}\n\\label{42}\n"));
}
