use mdhtml::builder::Builder;
use mdhtml::element::{HTMLElemnt, HTMLElemntList};
use mdhtml::lexer::Lexer;

fn el(tag: &str, attrs: Option<Vec<(&str, &str)>>, content: &str) -> HTMLElemnt {
    let attrs = attrs.map(|a| {
        a.into_iter()
            .map(|(k, v)| (k.to_string(), v.to_string()))
            .collect::<Vec<(String, String)>>()
    });
    HTMLElemnt::new(tag.to_string(), attrs, content.to_string())
}

#[test]
fn hr_renders_bare() {
    assert_eq!(el("hr", None, "").to_html(), "<hr>");
    assert_eq!(el("hr", None, "ignored").to_html(), "<hr>");
}

#[test]
fn img_renders_self_closing() {
    let e = el("img", Some(vec![("src", "a.png")]), "alt text");
    assert_eq!(e.to_html(), "<img src=\"a.png\" alt=\"alt text\"/>");
}

#[test]
fn emb_ignores_attributes() {
    assert_eq!(el("emb", None, "x").to_html(), "<em><strong>x</strong></em>");
    let e = el("emb", Some(vec![("class", "c")]), "x");
    assert_eq!(e.to_html(), "<em><strong>x</strong></em>");
}

#[test]
fn ordinary_element_with_attribute() {
    let e = el("a", Some(vec![("href", "x")]), "t");
    assert_eq!(e.to_html(), "<a href=\"x\">t</a>");
    assert_eq!(el("strong", None, "b").to_html(), "<strong>b</strong>");
}

#[test]
fn element_list_renders_and_clears() {
    let mut list = HTMLElemntList::new("ul".to_string());
    list.add(el("li", None, "a"));
    list.add(el("li", None, "b"));
    assert_eq!(list.len(), 2);
    assert_eq!(list.to_html(), "<ul><li>a</li><li>b</li></ul>");
    list.clear();
    assert_eq!(list.len(), 0);
    assert_eq!(list.to_html(), "<ul></ul>");
}

#[test]
fn ordered_list_run() {
    let lexer = Lexer::new();
    assert_eq!(lexer.parse_ol("1. a\n2. b\n"), "<ol><li>a</li><li>b</li></ol>");
}

#[test]
fn ordered_list_after_text_and_without_space() {
    let lexer = Lexer::new();
    assert_eq!(lexer.parse_ol("x\n1. a\n2.b"), "x\n<ol><li>a</li><li>b</li></ol>");
    assert_eq!(lexer.parse_ol("a. x\n"), "a. x\n");
}

#[test]
fn ordered_list_accepts_unicode_digits() {
    let lexer = Lexer::new();
    assert_eq!(lexer.parse_ol("\u{663}. x"), "<ol><li>x</li></ol>");
    assert_eq!(lexer.parse_ol("\u{b2}. x"), "\u{b2}. x\n");
}

#[test]
fn unordered_list_closed_by_line() {
    let lexer = Lexer::new();
    assert_eq!(lexer.parse_ul("- a\ntext"), "<ul><li>a</li></ul>\ntext\n");
    assert_eq!(lexer.parse_ul("-a\n"), "-a\n");
    assert_eq!(lexer.parse_ul("x\n- a\n- b\n\ny\n- c"), "x\n<ul><li>a</li><li>b</li></ul>\n\ny\n<ul><li>c</li></ul>");
}

#[test]
fn list_pass_on_empty_input() {
    let lexer = Lexer::new();
    assert_eq!(lexer.parse_ol(""), "");
    assert_eq!(lexer.parse_ul(""), "");
}

#[test]
fn heading_line() {
    let lexer = Lexer::new();
    assert_eq!(lexer.parse_line("# Title"), "<h1>Title</h1>\n");
}

#[test]
fn line_constructs() {
    let lexer = Lexer::new();
    assert_eq!(
        lexer.parse_line("## Sub\n> quote\n---\nplain"),
        "<h2>Sub</h2>\n<blockquote>quote</blockquote>\n<hr>\nplain\n"
    );
    assert_eq!(lexer.parse_line("###### six\n####### seven"), "<h6>six</h6>\n####### seven\n");
    assert_eq!(lexer.parse_line("  # Indented"), "<h1>Indented</h1>\n");
    assert_eq!(lexer.parse_line("#NoSpace"), "#NoSpace\n");
    assert_eq!(lexer.parse_line("# A\r\nb\n"), "<h1>A</h1>\nb\n");
}

#[test]
fn bold_token() {
    let lexer = Lexer::new();
    assert_eq!(lexer.parse_styles("**bold**"), "<strong>bold</strong> ");
}

#[test]
fn style_rules_in_order() {
    let lexer = Lexer::new();
    assert_eq!(
        lexer.parse_styles("***x*** _i_ ~~d~~ ===m=== plain"),
        "<em><strong>x</strong></em> <em>i</em> <del>d</del> <mark>m</mark> plain "
    );
    assert_eq!(lexer.parse_styles("a(**b**)c"), "<strong>b</strong> ");
    assert_eq!(lexer.parse_styles("a   b\tc\n"), "a b c ");
    assert_eq!(lexer.parse_styles("**not bold**"), "**not bold** ");
}

#[test]
fn unicode_whitespace_separates_tokens() {
    let lexer = Lexer::new();
    assert_eq!(lexer.parse_styles("a\u{a0}b\u{3000}c\u{2028}_d_"), "a b c <em>d</em> ");
    assert_eq!(lexer.parse_ul("-\u{2003}x"), "<ul><li>x</li></ul>");
}

#[test]
fn fenced_code() {
    let lexer = Lexer::new();
    let out = lexer.parse_code("```\ncode line\n```");
    assert_eq!(out, "<pre>code line </pre>");
    assert!(out.contains("code line"));
    assert!(!out.contains("```"));
}

#[test]
fn fenced_code_variants() {
    let lexer = Lexer::new();
    assert_eq!(lexer.parse_code("x ```a b``` y"), "x <pre>a b</pre>y ");
    assert_eq!(lexer.parse_code("```one```"), "<pre>one</pre>");
    assert_eq!(lexer.parse_code("````"), "<pre></pre>");
    assert_eq!(lexer.parse_code("a ```b c"), "a ");
}

#[test]
fn fence_opens_only_on_leading_delimiter() {
    let lexer = Lexer::new();
    assert_eq!(lexer.parse_code("x``` y"), "x``` y ");
    assert_eq!(lexer.parse_inline_code("x` y"), "x` y ");
}

#[test]
fn fence_closes_only_on_trailing_delimiter() {
    let lexer = Lexer::new();
    assert_eq!(lexer.parse_code("``` a ```b c```"), "<pre>a b c</pre>");
    assert_eq!(lexer.parse_code("``` a ```b c``` d"), "<pre>a b c</pre>d ");
    assert_eq!(lexer.parse_inline_code("`a `b c` d"), "<code>a b c</code>d ");
}

#[test]
fn inline_code() {
    let lexer = Lexer::new();
    assert_eq!(lexer.parse_inline_code("use `x` now"), "use <code>x</code>now ");
    assert_eq!(lexer.parse_inline_code("`a b`"), "<code>a b</code>");
}

#[test]
fn image_and_link_tokens() {
    let lexer = Lexer::new();
    assert_eq!(lexer.parse_image("![alt](img.png)"), "<img src=\"img.png\" alt=\"alt\"/>");
    assert_eq!(
        lexer.parse_link("see [here](http://a.b) now"),
        "see <a href=\"http://a.b\">here</a>now "
    );
    assert_eq!(lexer.parse_link("![alt](img.png)"), "<a href=\"img.png\">alt</a>");
    assert_eq!(lexer.parse_link("[a](b"), "[a](b ");
}

#[test]
fn image_before_link() {
    let out = Lexer::new().parse("![alt](img.png)");
    assert!(out.contains("<img src=\"img.png\" alt=\"alt\"/>"));
    assert!(!out.contains("<a"));
    assert_eq!(out, "<img src=\"img.png\" alt=\"alt\"/> ");
}

#[test]
fn empty_document() {
    assert_eq!(Lexer::new().parse(""), "");
}

#[test]
fn builder_wraps_body() {
    let doc = Builder::new("<p>x</p>".to_string()).build();
    assert_eq!(
        doc,
        "<!DOCTYPE html><html><head><meta charset=\"utf-8\"><title>Markdown</title></head><body><p>x</p></body></html>"
    );
}

#[test]
fn end_to_end() {
    let body = Lexer::new().parse("# Hello\n- one\n- two\n**bold** and _italic_");
    let h1 = body.find("<h1>Hello</h1>").unwrap();
    let ul = body.find("<ul><li>one</li><li>two</li></ul>").unwrap();
    let styled = body.find("<strong>bold</strong> and <em>italic</em> ").unwrap();
    assert!(h1 < ul && ul < styled);
    let doc = Builder::new(body).build();
    assert_eq!(
        doc,
        "<!DOCTYPE html><html><head><meta charset=\"utf-8\"><title>Markdown</title></head><body>\
<h1>Hello</h1> <ul><li>one</li><li>two</li></ul> <strong>bold</strong> and <em>italic</em> \
</body></html>"
    );
}

#[test]
fn end_to_end_with_final_line_feed() {
    let body = Lexer::new().parse("# Hello\n- one\n- two\n**bold** and _italic_\n");
    let h1 = body.find("<h1>Hello</h1>").unwrap();
    let ul = body.find("<ul><li>one</li><li>two</li></ul>").unwrap();
    let styled = body.find("<strong>bold</strong> and <em>italic</em>").unwrap();
    assert!(h1 < ul && ul < styled);
    let doc = Builder::new(body).build();
    assert!(doc.starts_with(
        "<!DOCTYPE html><html><head><meta charset=\"utf-8\"><title>Markdown</title></head><body>"
    ));
    assert!(doc.ends_with("</body></html>"));
    let h1 = doc.find("<h1>Hello</h1>").unwrap();
    let ul = doc.find("<ul><li>one</li><li>two</li></ul>").unwrap();
    let styled = doc.find("<strong>bold</strong> and <em>italic</em>").unwrap();
    assert!(h1 < ul && ul < styled);
}
