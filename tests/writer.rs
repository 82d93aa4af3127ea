use md2tex::resolve::{find_reference, join_path, link_fragment, raster_path, title_from, is_vector_path};
use md2tex::text::first_word_of;
use md2tex::writer::escape_tex_text;
use md2tex::{EventType, TexWriter};

#[test]
fn writer_helpers() {
    let mut w = TexWriter::new(String::from("x"));
    w.new_line().back_slash().push('c').push_str("ab");
    assert_eq!(w.buffer(), "x\n\\cab");
    w.push_lines(&["l1", "l2"]);
    assert_eq!(w.buffer(), "x\n\\cabl1\nl2\n");
    w.truncate_two();
    assert_eq!(w.buffer(), "x\n\\cabl1\nl");
    w.escape_str("a_b");
    assert_eq!(w.into_buffer(), "x\n\\cabl1\nla\\_b");
    let mut short = TexWriter::new(String::from("y"));
    short.truncate_two();
    assert_eq!(short.into_buffer(), "");
}

#[test]
fn escape_order() {
    assert_eq!(escape_tex_text("\\s"), "\\\\s");
    assert_eq!(escape_tex_text("x\\<y"), "x<y");
    assert_eq!(escape_tex_text("$5 & 10%"), "\\$5 \\& 10\\%");
    assert_eq!(escape_tex_text("a\u{2014}b"), "a---b");
    assert_eq!(escape_tex_text("a\u{e2}\u{20ac}\u{201d}b"), "a\u{e2}\u{20ac}\u{201d}b");
    assert_eq!(escape_tex_text("\\&"), "\\\\\\&");
    assert_eq!(escape_tex_text("#_#"), "\\#\\_\\#");
    assert_eq!(escape_tex_text("plain"), "plain");
}

#[test]
fn default_context_is_text() {
    assert_eq!(EventType::default(), EventType::Text);
}

#[test]
fn reference_lookup() {
    let paths = vec![
        "book/src/a.md".to_string(),
        "book/src/sub/b.md".to_string(),
        "book/b.md".to_string(),
    ];
    assert_eq!(find_reference(&paths, "b.md"), Some(1));
    assert_eq!(find_reference(&paths, "sub/b.md"), Some(1));
    assert_eq!(find_reference(&paths, "c.md"), None);
    assert_eq!(link_fragment("../../x.md#a"), "x.md#a");
}

#[test]
fn titles() {
    assert_eq!(title_from("## My Title  \nrest"), "My Title");
    assert_eq!(title_from("#\tT\r\n"), "T");
    assert_eq!(title_from(""), "");
    assert_eq!(title_from("no hash"), "no hash");
}

#[test]
fn paths() {
    assert_eq!(join_path("a", "b.svg"), "a/b.svg");
    assert_eq!(join_path("a/", "b.svg"), "a/b.svg");
    assert_eq!(join_path("", "b.svg"), "b.svg");
    assert_eq!(join_path("a", "/b.svg"), "/b.svg");
    assert!(is_vector_path("x/d.svg"));
    assert!(!is_vector_path("x/.svg"));
    assert!(!is_vector_path("d.png"));
    assert_eq!(raster_path("x/d.svg"), "x/d.png");
}

#[test]
fn first_words() {
    assert_eq!(first_word_of("  rust editable"), "rust");
    assert_eq!(first_word_of("   "), "   ");
}

#[test]
fn escape_each_special_character_once() {
    assert_eq!(
        escape_tex_text("a&b_c%d$e#f\u{2014}g"),
        "a\\&b\\_c\\%d\\$e\\#f---g"
    );
}
