//! Laws of the element rendering.
use vstd::prelude::*;
use crate::element::{render, ElementModel};
use crate::lexer::{line_marker, line_rule_matches, HR_RULE, LINE_RULES};
use crate::text::skip_ws;

verus! {

/// A horizontal rule renders as exactly `<hr>`: no content and no closing tag,
/// whatever content it was given.
pub proof fn hr_is_bare(content: Seq<char>)
    ensures
        render(ElementModel { tag: "hr"@, attrs: None, content }) == "<hr>"@,
{
    reveal_strlit("hr");
    reveal_strlit("emb");
    reveal_strlit("img");
    reveal_strlit("<");
    reveal_strlit(">");
    reveal_strlit("<hr>");
    assert("<"@ + "hr"@ + seq![] + ">"@ =~= "<hr>"@);
}

/// An image renders as a self-closing tag with its source and its content as
/// the alternative text.
pub proof fn img_self_closes(src: Seq<char>, alt: Seq<char>)
    ensures
        render(ElementModel { tag: "img"@, attrs: Some(seq![("src"@, src)]), content: alt })
            == "<img src=\""@ + src + "\" alt=\""@ + alt + "\"/>"@,
{
    reveal_strlit("img");
    reveal_strlit("emb");
    reveal_strlit("hr");
    reveal_strlit("<");
    reveal_strlit(" ");
    reveal_strlit("src");
    reveal_strlit("=\"");
    reveal_strlit("<img src=\"");
    reveal_strlit("\" alt=\"");
    reveal_strlit("\"");
    reveal_strlit(" alt=\"");
    assert("img"@[0] != "emb"@[0]);
    assert("img"@.len() != "hr"@.len());
    let a = seq![("src"@, src)];
    reveal_strlit("\"/>");
    assert(a.drop_last() =~= Seq::<(Seq<char>, Seq<char>)>::empty());
    assert(crate::element::attrs_html(a.drop_last()) == Seq::<char>::empty());
    assert(a.last() == ("src"@, src));
    assert(crate::element::attrs_html(a) =~= " "@ + "src"@ + "=\""@ + src + "\""@);
    assert("<"@ + "img"@ + crate::element::attrs_html(a) + " alt=\""@ + alt + "\"/>"@
        =~= "<img src=\""@ + src + "\" alt=\""@ + alt + "\"/>"@);
}

/// The bold-italic composite renders as strong text inside emphasis, whatever
/// attributes it carries.
pub proof fn emb_ignores_attributes(
    attrs: Option<Seq<(Seq<char>, Seq<char>)>>,
    content: Seq<char>,
)
    ensures
        render(ElementModel { tag: "emb"@, attrs, content }) == "<em><strong>"@ + content
            + "</strong></em>"@,
{
}

/// At most one line rule matches a line: the heading markers, the blockquote
/// marker and the horizontal rule exclude one another, so the line-construct
/// pass never emits two elements for one line.
pub proof fn line_rules_exclusive(l: Seq<char>, j: int, k: int)
    requires
        0 <= j < k < LINE_RULES,
    ensures
        !(line_rule_matches(j, l) && line_rule_matches(k, l)),
{
    reveal_strlit("# ");
    reveal_strlit("## ");
    reveal_strlit("### ");
    reveal_strlit("#### ");
    reveal_strlit("##### ");
    reveal_strlit("###### ");
    reveal_strlit("> ");
    reveal_strlit("---");
    let s = skip_ws(l, 0);
    if line_rule_matches(j, l) && line_rule_matches(k, l) {
        let mj = line_marker(j);
        let mk = line_marker(k);
        if k == HR_RULE as int {
            assert(l.subrange(s, l.len() as int)[0] == '-');
            assert(l.subrange(s, s + mj.len())[0] == mj[0]);
            assert(false);
        } else if k == 6 {
            assert(l.subrange(s, s + mk.len())[0] == '>');
            assert(l.subrange(s, s + mj.len())[0] == '#');
            assert(false);
        } else {
            assert(l.subrange(s, s + mj.len())[j + 1] == ' ');
            assert(l.subrange(s, s + mk.len())[j + 1] == '#');
            assert(l[s + j + 1] == ' ');
            assert(false);
        }
    }
}

} // verus!
