//! The conversion pipeline: one rewrite pass per Markdown construct, applied in
//! a fixed order.
use vstd::prelude::*;
use crate::element::{render, render_list, ElementModel, HTMLElemnt, HTMLElemntList};
use crate::text::{
    append, chars_of, find_first, find_last_below, first_from, is_ws, last_below, lines_of,
    occurs_at, occurs_at_pos, same, skip_digits, skip_digits_from, skip_ws, skip_ws_from, slice,
    split_lines, split_tokens, string_of, tokens_of,
};

verus! {

/// An element with no attributes.
pub open spec fn plain(tag: Seq<char>, content: Seq<char>) -> ElementModel {
    ElementModel { tag, attrs: None, content }
}

/// The number of line rules: six heading levels, blockquote, horizontal rule.
pub const LINE_RULES: usize = 8;

/// The index of the horizontal-rule line rule, the one that takes no content.
pub const HR_RULE: usize = 7;

/// The marker that line rule `k` expects after the leading whitespace.
pub open spec fn line_marker(k: int) -> Seq<char> {
    if k == 0 {
        "# "@
    } else if k == 1 {
        "## "@
    } else if k == 2 {
        "### "@
    } else if k == 3 {
        "#### "@
    } else if k == 4 {
        "##### "@
    } else if k == 5 {
        "###### "@
    } else if k == 6 {
        "> "@
    } else {
        "---"@
    }
}

/// The tag that line rule `k` emits.
pub open spec fn line_tag(k: int) -> Seq<char> {
    if k == 0 {
        "h1"@
    } else if k == 1 {
        "h2"@
    } else if k == 2 {
        "h3"@
    } else if k == 3 {
        "h4"@
    } else if k == 4 {
        "h5"@
    } else if k == 5 {
        "h6"@
    } else if k == 6 {
        "blockquote"@
    } else {
        "hr"@
    }
}

/// Line rule `k` matches line `l`: after leading whitespace comes the rule's
/// marker; for the horizontal rule the marker is all that follows.
pub open spec fn line_rule_matches(k: int, l: Seq<char>) -> bool {
    let s = skip_ws(l, 0);
    if k == HR_RULE as int {
        l.subrange(s, l.len() as int) == line_marker(k)
    } else {
        occurs_at(l, line_marker(k), s)
    }
}

/// What line rule `k` emits for line `l`: the element, with the rest of the
/// line after the marker as content, and a line feed; nothing if it does not
/// match.
pub open spec fn line_rule_out(k: int, l: Seq<char>) -> Seq<char> {
    if line_rule_matches(k, l) {
        let s = skip_ws(l, 0);
        let content = if k == HR_RULE as int {
            seq![]
        } else {
            l.subrange(s + line_marker(k).len(), l.len() as int)
        };
        render(plain(line_tag(k), content)) + "\n"@
    } else {
        seq![]
    }
}

/// What the first `n` line rules emit for `l`, in rule order.
pub open spec fn line_rules_out(l: Seq<char>, n: int) -> Seq<char>
    decreases n,
{
    if n <= 0 {
        seq![]
    } else {
        line_rules_out(l, n - 1) + line_rule_out(n - 1, l)
    }
}

/// Some of the first `n` line rules match `l`.
pub open spec fn line_rules_match(l: Seq<char>, n: int) -> bool {
    exists|k: int| 0 <= k < n && line_rule_matches(k, l)
}

/// The output for one line: what every matching rule emits, or the line itself
/// and a line feed when none matches.
pub open spec fn line_out(l: Seq<char>) -> Seq<char> {
    if line_rules_match(l, LINE_RULES as int) {
        line_rules_out(l, LINE_RULES as int)
    } else {
        l + "\n"@
    }
}

/// The outputs of `f` for each line, one after another.
pub open spec fn concat_map(ls: Seq<Seq<char>>, f: spec_fn(Seq<char>) -> Seq<char>) -> Seq<char>
    decreases ls.len(),
{
    if ls.len() == 0 {
        seq![]
    } else {
        concat_map(ls.drop_last(), f) + f(ls.last())
    }
}

/// The line-construct pass: headings, blockquotes and horizontal rules.
pub open spec fn line_pass(s: Seq<char>) -> Seq<char> {
    concat_map(lines_of(s), |l: Seq<char>| line_out(l))
}

/// A string holding the given characters.
fn text_of(s: &str) -> (r: String)
    ensures
        r@ == s@,
{
    string_of(&chars_of(s))
}

/// The marker and tag of line rule `k`.
fn line_rule(k: usize) -> (r: (Vec<char>, String))
    requires
        k < LINE_RULES,
    ensures
        r.0@ == line_marker(k as int),
        r.1@ == line_tag(k as int),
{
    if k == 0 {
        (chars_of("# "), text_of("h1"))
    } else if k == 1 {
        (chars_of("## "), text_of("h2"))
    } else if k == 2 {
        (chars_of("### "), text_of("h3"))
    } else if k == 3 {
        (chars_of("#### "), text_of("h4"))
    } else if k == 4 {
        (chars_of("##### "), text_of("h5"))
    } else if k == 5 {
        (chars_of("###### "), text_of("h6"))
    } else if k == 6 {
        (chars_of("> "), text_of("blockquote"))
    } else {
        (chars_of("---"), text_of("hr"))
    }
}

/// Appends the output for one line.
fn line_into(out: &mut Vec<char>, l: &Vec<char>)
    ensures
        final(out)@ == old(out)@ + line_out(l@),
{
    let s = skip_ws_from(l, 0);
    let mut hit = false;
    let mut k: usize = 0;
    while k < LINE_RULES
        invariant
            k <= LINE_RULES,
            s == skip_ws(l@, 0),
            s <= l@.len(),
            out@ == old(out)@ + line_rules_out(l@, k as int),
            hit == line_rules_match(l@, k as int),
            !hit ==> line_rules_out(l@, k as int) == Seq::<char>::empty(),
        decreases LINE_RULES - k,
    {
        let (marker, tag) = line_rule(k);
        let ghost matched = line_rule_matches(k as int, l@);
        let mut content: Vec<char> = Vec::new();
        let mut found = false;
        if k == HR_RULE {
            let rest = slice(l, s, l.len());
            found = same(&rest, &marker);
        } else if occurs_at_pos(l, &marker, s) {
            let n = l.len();
            assert(s + marker@.len() <= n);
            content = slice(l, s + marker.len(), n);
            found = true;
        }
        assert(found == matched);
        if found {
            let e = HTMLElemnt::new(tag, None, string_of(&content));
            append(out, &chars_of(e.to_html().as_str()));
            append(out, &chars_of("\n"));
            assert(content@ =~= (if k == HR_RULE {
                seq![]
            } else {
                l@.subrange(s + line_marker(k as int).len(), l@.len() as int)
            }));
            hit = true;
        }
        proof {
            if !found && !hit {
                assert forall|j: int| 0 <= j < k + 1 implies !line_rule_matches(j, l@) by {
                    if j < k {
                        assert(!line_rules_match(l@, k as int));
                    }
                }
            }
        }
        k = k + 1;
    }
    if !hit {
        append(out, l);
        append(out, &chars_of("\n"));
    }
}

/// Runs the line-construct pass on characters.
pub fn line_chars(s: &Vec<char>) -> (r: Vec<char>)
    ensures
        r@ == line_pass(s@),
{
    let lines = split_lines(s);
    let ghost ls = lines_of(s@);
    let mut out: Vec<char> = Vec::new();
    let mut i: usize = 0;
    while i < lines.len()
        invariant
            i <= lines@.len(),
            ls == crate::text::views_of(lines@),
            out@ == concat_map(ls.subrange(0, i as int), |l: Seq<char>| line_out(l)),
        decreases lines@.len() - i,
    {
        line_into(&mut out, &lines[i]);
        i = i + 1;
        assert(ls.subrange(0, i as int).drop_last() =~= ls.subrange(0, i - 1));
    }
    assert(ls.subrange(0, i as int) =~= ls);
    out
}

/// The content of an ordered-list item line: after leading whitespace, one or
/// more decimal digits, a period and optional whitespace, the rest of the line.
pub open spec fn ol_item(l: Seq<char>) -> Option<Seq<char>> {
    let s = skip_ws(l, 0);
    let d = skip_digits(l, s);
    if s < d && d < l.len() && l[d] == '.' {
        Some(l.subrange(skip_ws(l, d + 1), l.len() as int))
    } else {
        None
    }
}

/// The content of an unordered-list item line: after leading whitespace, a dash
/// and one whitespace character, the rest of the line.
pub open spec fn ul_item(l: Seq<char>) -> Option<Seq<char>> {
    let s = skip_ws(l, 0);
    if s + 1 < l.len() && l[s] == '-' && is_ws(l[s + 1]) {
        Some(l.subrange(s + 2, l.len() as int))
    } else {
        None
    }
}

/// The item of line `l` for an ordered or unordered list.
pub open spec fn list_item(ordered: bool, l: Seq<char>) -> Option<Seq<char>> {
    if ordered {
        ol_item(l)
    } else {
        ul_item(l)
    }
}

/// The wrapping tag of an ordered or unordered list.
pub open spec fn list_tag(ordered: bool) -> Seq<char> {
    if ordered {
        "ol"@
    } else {
        "ul"@
    }
}

/// The list item element with the given content.
pub open spec fn li(c: Seq<char>) -> ElementModel {
    plain("li"@, c)
}

/// The rendered list of the collected item contents.
pub open spec fn list_html(ordered: bool, items: Seq<Seq<char>>) -> Seq<char> {
    render_list(items.map_values(|c: Seq<char>| li(c)), list_tag(ordered))
}

/// Reading the lines in order: the output so far, and the contents of the
/// items of the run still being collected.
pub open spec fn list_scan(ordered: bool, ls: Seq<Seq<char>>) -> (Seq<char>, Seq<Seq<char>>)
    decreases ls.len(),
{
    if ls.len() == 0 {
        (seq![], seq![])
    } else {
        let (out, items) = list_scan(ordered, ls.drop_last());
        let l = ls.last();
        match list_item(ordered, l) {
            Some(c) => (out, items.push(c)),
            None => if items.len() > 0 {
                (out + list_html(ordered, items) + "\n"@ + l + "\n"@, seq![])
            } else {
                (out + l + "\n"@, seq![])
            },
        }
    }
}

/// A list pass: each maximal run of item lines becomes one rendered list. A run
/// closed by another line is followed by a line feed and then that line; a run
/// that reaches the end of the text is flushed there, with nothing after it.
/// Every other line is kept, with a line feed.
pub open spec fn list_pass(ordered: bool, s: Seq<char>) -> Seq<char> {
    let (out, items) = list_scan(ordered, lines_of(s));
    if items.len() > 0 {
        out + list_html(ordered, items)
    } else {
        out
    }
}

/// The content of `l` as a list item, if it is one.
fn list_item_of(ordered: bool, l: &Vec<char>) -> (r: Option<Vec<char>>)
    ensures
        match r {
            Some(c) => list_item(ordered, l@) == Some(c@),
            None => list_item(ordered, l@).is_none(),
        },
{
    let n = l.len();
    let s = skip_ws_from(l, 0);
    if ordered {
        let d = skip_digits_from(l, s);
        if s < d && d < n && l[d] == '.' {
            let c = skip_ws_from(l, d + 1);
            Some(slice(l, c, n))
        } else {
            None
        }
    } else {
        if s < n && s + 1 < n && l[s] == '-' && crate::text::is_ws_char(l[s + 1]) {
            Some(slice(l, s + 2, n))
        } else {
            None
        }
    }
}

/// Appends the rendered list and empties it.
fn flush_list(out: &mut Vec<char>, acc: &mut HTMLElemntList, ordered: bool, Ghost(items): Ghost<
    Seq<Seq<char>>,
>)
    requires
        old(acc)@.items == items.map_values(|c: Seq<char>| li(c)),
        old(acc)@.wrapper == list_tag(ordered),
    ensures
        final(out)@ == old(out)@ + list_html(ordered, items),
        final(acc)@.items == Seq::<ElementModel>::empty(),
        final(acc)@.wrapper == list_tag(ordered),
{
    append(out, &chars_of(acc.to_html().as_str()));
    acc.clear();
}

/// Runs an ordered (`ordered`) or unordered list pass on characters.
pub fn list_chars(ordered: bool, s: &Vec<char>) -> (r: Vec<char>)
    ensures
        r@ == list_pass(ordered, s@),
{
    let lines = split_lines(s);
    let ghost ls = lines_of(s@);
    let tag = if ordered {
        text_of("ol")
    } else {
        text_of("ul")
    };
    let mut acc = HTMLElemntList::new(tag);
    let ghost mut items: Seq<Seq<char>> = seq![];
    let mut out: Vec<char> = Vec::new();
    let mut i: usize = 0;
    while i < lines.len()
        invariant
            i <= lines@.len(),
            ls == crate::text::views_of(lines@),
            (out@, items) == list_scan(ordered, ls.subrange(0, i as int)),
            acc@.items == items.map_values(|c: Seq<char>| li(c)),
            acc@.wrapper == list_tag(ordered),
        decreases lines@.len() - i,
    {
        assert(ls.subrange(0, i + 1).drop_last() =~= ls.subrange(0, i as int));
        let l = &lines[i];
        match list_item_of(ordered, l) {
            Some(c) => {
                let e = HTMLElemnt::new(text_of("li"), None, string_of(&c));
                acc.add(e);
                proof {
                    assert(items.push(c@).map_values(|c: Seq<char>| li(c)) =~= items.map_values(
                        |c: Seq<char>| li(c),
                    ).push(li(c@)));
                    items = items.push(c@);
                }
            },
            None => {
                if acc.len() > 0 {
                    flush_list(&mut out, &mut acc, ordered, Ghost(items));
                    append(&mut out, &chars_of("\n"));
                }
                append(&mut out, l);
                append(&mut out, &chars_of("\n"));
                proof {
                    items = seq![];
                    assert(acc@.items =~= items.map_values(|c: Seq<char>| li(c)));
                }
            },
        }
        i = i + 1;
    }
    assert(ls.subrange(0, i as int) =~= ls);
    if acc.len() > 0 {
        flush_list(&mut out, &mut acc, ordered, Ghost(items));
    }
    out
}

/// The text between the first occurrence of `d` in `t` and the last one, when
/// the last one starts at or after the end of the first (what the pattern
/// `d(.*)d`, searched leftmost-first with a greedy group, captures).
pub open spec fn delimited(t: Seq<char>, d: Seq<char>) -> Option<Seq<char>> {
    let i = first_from(t, d, 0);
    let j = last_below(t, d, t.len() as int);
    if i >= 0 && j >= i + d.len() {
        Some(t.subrange(i + d.len(), j))
    } else {
        None
    }
}

/// The number of inline style rules.
pub const STYLE_RULES: usize = 5;

/// The delimiter of style rule `k`, in precedence order: bold-italic, italic,
/// bold, highlight, strikethrough.
pub open spec fn style_delim(k: int) -> Seq<char> {
    if k == 0 {
        "***"@
    } else if k == 1 {
        "_"@
    } else if k == 2 {
        "**"@
    } else if k == 3 {
        "==="@
    } else {
        "~~"@
    }
}

/// The tag of style rule `k`.
pub open spec fn style_tag(k: int) -> Seq<char> {
    if k == 0 {
        "emb"@
    } else if k == 1 {
        "em"@
    } else if k == 2 {
        "strong"@
    } else if k == 3 {
        "mark"@
    } else {
        "del"@
    }
}

/// The token rewritten by the first style rule from `k` on that matches it,
/// or the token itself.
pub open spec fn style_from(t: Seq<char>, k: int) -> Seq<char>
    decreases STYLE_RULES - k,
{
    if k < 0 || k >= STYLE_RULES {
        t
    } else {
        match delimited(t, style_delim(k)) {
            Some(c) => render(plain(style_tag(k), c)),
            None => style_from(t, k + 1),
        }
    }
}

/// The inline-style pass: each token rewritten by its first matching style
/// rule, and every token followed by one space.
pub open spec fn style_pass(s: Seq<char>) -> Seq<char> {
    concat_map(tokens_of(s), |t: Seq<char>| style_from(t, 0) + " "@)
}

/// The delimiter and tag of style rule `k`.
fn style_rule(k: usize) -> (r: (Vec<char>, String))
    requires
        k < STYLE_RULES,
    ensures
        r.0@ == style_delim(k as int),
        r.1@ == style_tag(k as int),
{
    if k == 0 {
        (chars_of("***"), text_of("emb"))
    } else if k == 1 {
        (chars_of("_"), text_of("em"))
    } else if k == 2 {
        (chars_of("**"), text_of("strong"))
    } else if k == 3 {
        (chars_of("==="), text_of("mark"))
    } else {
        (chars_of("~~"), text_of("del"))
    }
}

/// The text between the first and last occurrences of `d` in `t`.
fn delimited_of(t: &Vec<char>, d: &Vec<char>) -> (r: Option<Vec<char>>)
    ensures
        match r {
            Some(c) => delimited(t@, d@) == Some(c@),
            None => delimited(t@, d@).is_none(),
        },
{
    let n = t.len();
    match find_first(t, d) {
        None => None,
        Some(i) => match find_last_below(t, d, n) {
            None => None,
            Some(j) => {
                if j >= i && j - i >= d.len() {
                    Some(slice(t, i + d.len(), j))
                } else {
                    None
                }
            },
        },
    }
}

/// The token rewritten by its first matching style rule.
fn style_token(t: &Vec<char>) -> (r: Vec<char>)
    ensures
        r@ == style_from(t@, 0),
{
    let mut k: usize = 0;
    while k < STYLE_RULES
        invariant
            k <= STYLE_RULES,
            style_from(t@, 0) == style_from(t@, k as int),
        decreases STYLE_RULES - k,
    {
        let (d, tag) = style_rule(k);
        match delimited_of(t, &d) {
            Some(c) => {
                let e = HTMLElemnt::new(tag, None, string_of(&c));
                return chars_of(e.to_html().as_str());
            },
            None => {},
        }
        k = k + 1;
    }
    slice(t, 0, t.len())
}

/// Runs the inline-style pass on characters.
pub fn style_chars(s: &Vec<char>) -> (r: Vec<char>)
    ensures
        r@ == style_pass(s@),
{
    let tokens = split_tokens(s);
    let ghost ts = tokens_of(s@);
    let mut out: Vec<char> = Vec::new();
    let mut i: usize = 0;
    while i < tokens.len()
        invariant
            i <= tokens@.len(),
            ts == crate::text::views_of(tokens@),
            out@ == concat_map(ts.subrange(0, i as int), |t: Seq<char>| style_from(t, 0) + " "@),
        decreases tokens@.len() - i,
    {
        append(&mut out, &style_token(&tokens[i]));
        append(&mut out, &chars_of(" "));
        i = i + 1;
        assert(ts.subrange(0, i as int).drop_last() =~= ts.subrange(0, i - 1));
        assert(out@ =~= concat_map(ts.subrange(0, i as int), |t: Seq<char>| style_from(t, 0) + " "@));
    }
    assert(ts.subrange(0, i as int) =~= ts);
    out
}

/// `w` starts with `d`.
pub open spec fn starts_with(w: Seq<char>, d: Seq<char>) -> bool {
    occurs_at(w, d, 0)
}

/// `w` ends with `d`.
pub open spec fn ends_with(w: Seq<char>, d: Seq<char>) -> bool {
    occurs_at(w, d, w.len() - d.len())
}

/// What a token that starts and ends with `d` holds inside the two delimiters
/// (nothing when the two overlap).
pub open spec fn inner(w: Seq<char>, d: Seq<char>) -> Seq<char> {
    if w.len() >= 2 * d.len() {
        w.subrange(d.len() as int, w.len() - d.len())
    } else {
        seq![]
    }
}

/// The state of a code pass: the output so far, whether a code span is open,
/// and the text collected for it.
pub ghost struct CodeState {
    pub out: Seq<char>,
    pub inside: bool,
    pub kids: Seq<char>,
}

/// One token read by a code pass with delimiter `d` and tag `tag`. Outside a
/// span, a token that starts with `d` opens one, and any other token is kept,
/// followed by one space. Inside a span, a token that ends with `d` closes it;
/// so does the opening token itself when it also ends with `d` and is more than
/// `d`. The delimiters are stripped from the tokens in a span and the rest
/// collected (followed by one space unless the token closes the span); a closed
/// span is emitted as one element.
pub open spec fn code_step(st: CodeState, w: Seq<char>, d: Seq<char>, tag: Seq<char>) -> CodeState {
    if !st.inside && !starts_with(w, d) {
        CodeState { out: st.out + w + " "@, inside: false, kids: st.kids }
    } else {
        let (kids, end) = if w == d {
            (st.kids, st.inside)
        } else if starts_with(w, d) && ends_with(w, d) {
            (st.kids + inner(w, d), true)
        } else if ends_with(w, d) {
            (st.kids + w.subrange(0, w.len() - d.len()), true)
        } else if starts_with(w, d) {
            (st.kids + w.subrange(d.len() as int, w.len() as int) + " "@, false)
        } else {
            (st.kids + w + " "@, false)
        };
        if end {
            CodeState { out: st.out + render(plain(tag, kids)), inside: false, kids: seq![] }
        } else {
            CodeState { out: st.out, inside: true, kids }
        }
    }
}

/// The state after reading the tokens `ts` in order.
pub open spec fn code_scan(ts: Seq<Seq<char>>, d: Seq<char>, tag: Seq<char>) -> CodeState
    decreases ts.len(),
{
    if ts.len() == 0 {
        CodeState { out: seq![], inside: false, kids: seq![] }
    } else {
        code_step(code_scan(ts.drop_last(), d, tag), ts.last(), d, tag)
    }
}

/// A code pass: tokens outside spans are kept, each followed by one space; each
/// closed span becomes one element; a span still open at the end is dropped.
pub open spec fn code_pass(s: Seq<char>, d: Seq<char>, tag: Seq<char>) -> Seq<char> {
    code_scan(tokens_of(s), d, tag).out
}

/// The fenced-code pass.
pub open spec fn fence_pass(s: Seq<char>) -> Seq<char> {
    code_pass(s, "```"@, "pre"@)
}

/// The inline-code pass.
pub open spec fn inline_code_pass(s: Seq<char>) -> Seq<char> {
    code_pass(s, "`"@, "code"@)
}

/// Whether `w` starts with `d`.
fn starts_with_exec(w: &Vec<char>, d: &Vec<char>) -> (r: bool)
    ensures
        r == starts_with(w@, d@),
{
    occurs_at_pos(w, d, 0)
}

/// Whether `w` ends with `d`.
fn ends_with_exec(w: &Vec<char>, d: &Vec<char>) -> (r: bool)
    ensures
        r == ends_with(w@, d@),
{
    if d.len() > w.len() {
        false
    } else {
        occurs_at_pos(w, d, w.len() - d.len())
    }
}

/// Runs a code pass with delimiter `d` and tag `tag` on characters.
pub fn code_chars(s: &Vec<char>, d: &Vec<char>, tag: &Vec<char>) -> (r: Vec<char>)
    ensures
        r@ == code_pass(s@, d@, tag@),
{
    let tokens = split_tokens(s);
    let ghost ts = tokens_of(s@);
    let mut out: Vec<char> = Vec::new();
    let mut inside = false;
    let mut kids: Vec<char> = Vec::new();
    let mut i: usize = 0;
    while i < tokens.len()
        invariant
            i <= tokens@.len(),
            ts == crate::text::views_of(tokens@),
            code_scan(ts.subrange(0, i as int), d@, tag@) == (CodeState {
                out: out@,
                inside,
                kids: kids@,
            }),
        decreases tokens@.len() - i,
    {
        assert(ts.subrange(0, i + 1).drop_last() =~= ts.subrange(0, i as int));
        let w = &tokens[i];
        let st = starts_with_exec(w, d);
        let en = ends_with_exec(w, d);
        if !inside && !st {
            append(&mut out, w);
            append(&mut out, &chars_of(" "));
        } else {
            let mut end = false;
            if same(w, d) {
                end = inside;
            } else if st && en {
                let n = w.len();
                if n >= d.len() && n - d.len() >= d.len() {
                    append(&mut kids, &slice(w, d.len(), n - d.len()));
                }
                end = true;
            } else if en {
                append(&mut kids, &slice(w, 0, w.len() - d.len()));
                end = true;
            } else if st {
                append(&mut kids, &slice(w, d.len(), w.len()));
                append(&mut kids, &chars_of(" "));
            } else {
                append(&mut kids, w);
                append(&mut kids, &chars_of(" "));
            }
            if end {
                let e = HTMLElemnt::new(string_of(tag), None, string_of(&kids));
                append(&mut out, &chars_of(e.to_html().as_str()));
                inside = false;
                kids = Vec::new();
            } else {
                inside = true;
            }
        }
        i = i + 1;
        assert(code_scan(ts.subrange(0, i as int), d@, tag@) =~= (CodeState {
            out: out@,
            inside,
            kids: kids@,
        }));
    }
    assert(ts.subrange(0, i as int) =~= ts);
    out
}

/// What the pattern `open(.*)\]\((.*)\)` captures in `t`, searched
/// leftmost-first with greedy groups: the text and the target. The match
/// starts at the first `open`, the target ends at the last `)`, and the text
/// ends at the last `](` that leaves room for that `)`.
pub open spec fn bracket_paren(t: Seq<char>, open: Seq<char>) -> Option<(Seq<char>, Seq<char>)> {
    let i = first_from(t, open, 0);
    let l = last_below(t, ")"@, t.len() as int);
    let a = last_below(t, "]("@, l - 1);
    if i >= 0 && l >= 0 && a >= i + open.len() {
        Some((t.subrange(i + open.len(), a), t.subrange(a + 2, l)))
    } else {
        None
    }
}

/// The output for one token of a pass that turns `open[text](target)` into an
/// element with tag `tag`, the text as content and the target as attribute
/// `attr`. A rewritten token is followed by nothing, any other by one space.
pub open spec fn bracket_token(
    t: Seq<char>,
    open: Seq<char>,
    tag: Seq<char>,
    attr: Seq<char>,
) -> Seq<char> {
    match bracket_paren(t, open) {
        Some((text, target)) => render(
            ElementModel { tag, attrs: Some(seq![(attr, target)]), content: text },
        ),
        None => t + " "@,
    }
}

/// A pass that rewrites bracket-paren tokens.
pub open spec fn bracket_pass(s: Seq<char>, open: Seq<char>, tag: Seq<char>, attr: Seq<char>) -> Seq<
    char,
> {
    concat_map(tokens_of(s), |t: Seq<char>| bracket_token(t, open, tag, attr))
}

/// The image pass: `![alt](src)` becomes an `img` element.
pub open spec fn image_pass(s: Seq<char>) -> Seq<char> {
    bracket_pass(s, "!["@, "img"@, "src"@)
}

/// The link pass: `[text](href)` becomes an `a` element.
pub open spec fn link_pass(s: Seq<char>) -> Seq<char> {
    bracket_pass(s, "["@, "a"@, "href"@)
}

/// The text and target of a bracket-paren token.
fn bracket_paren_of(t: &Vec<char>, open: &Vec<char>) -> (r: Option<(Vec<char>, Vec<char>)>)
    ensures
        match r {
            Some((a, b)) => bracket_paren(t@, open@) == Some((a@, b@)),
            None => bracket_paren(t@, open@).is_none(),
        },
{
    let n = t.len();
    let i = match find_first(t, open) {
        Some(i) => i,
        None => return None,
    };
    let l = match find_last_below(t, &chars_of(")"), n) {
        Some(l) => l,
        None => return None,
    };
    if l == 0 {
        assert(last_below(t@, "]("@, l - 1) == -1);
        return None;
    }
    let a = match find_last_below(t, &chars_of("]("), l - 1) {
        Some(a) => a,
        None => return None,
    };
    if a >= i && a - i >= open.len() {
        assert(a + 2 <= l);
        Some((slice(t, i + open.len(), a), slice(t, a + 2, l)))
    } else {
        None
    }
}

/// Runs a bracket-paren pass on characters.
pub fn bracket_chars(s: &Vec<char>, open: &Vec<char>, tag: &Vec<char>, attr: &Vec<char>) -> (r:
    Vec<char>)
    ensures
        r@ == bracket_pass(s@, open@, tag@, attr@),
{
    let tokens = split_tokens(s);
    let ghost ts = tokens_of(s@);
    let mut out: Vec<char> = Vec::new();
    let mut i: usize = 0;
    while i < tokens.len()
        invariant
            i <= tokens@.len(),
            ts == crate::text::views_of(tokens@),
            out@ == concat_map(
                ts.subrange(0, i as int),
                |t: Seq<char>| bracket_token(t, open@, tag@, attr@),
            ),
        decreases tokens@.len() - i,
    {
        let w = &tokens[i];
        match bracket_paren_of(w, open) {
            Some((text, target)) => {
                let mut attrs: Vec<(String, String)> = Vec::new();
                attrs.push((string_of(attr), string_of(&target)));
                let ghost av = crate::element::attrs_view(attrs@);
                assert(av =~= seq![(attr@, target@)]);
                let e = HTMLElemnt::new(string_of(tag), Some(attrs), string_of(&text));
                append(&mut out, &chars_of(e.to_html().as_str()));
            },
            None => {
                append(&mut out, w);
                append(&mut out, &chars_of(" "));
            },
        }
        i = i + 1;
        assert(ts.subrange(0, i as int).drop_last() =~= ts.subrange(0, i - 1));
    }
    assert(ts.subrange(0, i as int) =~= ts);
    out
}

/// The whole pipeline: line constructs, ordered lists, unordered lists, inline
/// styles, fenced code, inline code, images, links, each pass reading the
/// previous one's output.
pub open spec fn convert(s: Seq<char>) -> Seq<char> {
    link_pass(
        image_pass(
            inline_code_pass(
                fence_pass(style_pass(list_pass(false, list_pass(true, line_pass(s))))),
            ),
        ),
    )
}

/// The Markdown lexer: runs the rewrite passes.
pub struct Lexer {}

impl Lexer {
    pub fn new() -> (r: Lexer) {
        Lexer {  }
    }

    /// Converts a Markdown document into the HTML body.
    pub fn parse(&self, markdown: &str) -> (r: String)
        ensures
            r@ == convert(markdown@),
    {
        let s = chars_of(markdown);
        let s = line_chars(&s);
        let s = list_chars(true, &s);
        let s = list_chars(false, &s);
        let s = style_chars(&s);
        let s = code_chars(&s, &chars_of("```"), &chars_of("pre"));
        let s = code_chars(&s, &chars_of("`"), &chars_of("code"));
        let s = bracket_chars(&s, &chars_of("!["), &chars_of("img"), &chars_of("src"));
        let s = bracket_chars(&s, &chars_of("["), &chars_of("a"), &chars_of("href"));
        string_of(&s)
    }

    /// The line-construct pass alone.
    pub fn parse_line(&self, markdown: &str) -> (r: String)
        ensures
            r@ == line_pass(markdown@),
    {
        string_of(&line_chars(&chars_of(markdown)))
    }

    /// The ordered-list pass alone.
    pub fn parse_ol(&self, markdown: &str) -> (r: String)
        ensures
            r@ == list_pass(true, markdown@),
    {
        string_of(&list_chars(true, &chars_of(markdown)))
    }

    /// The unordered-list pass alone.
    pub fn parse_ul(&self, markdown: &str) -> (r: String)
        ensures
            r@ == list_pass(false, markdown@),
    {
        string_of(&list_chars(false, &chars_of(markdown)))
    }

    /// The inline-style pass alone.
    pub fn parse_styles(&self, markdown: &str) -> (r: String)
        ensures
            r@ == style_pass(markdown@),
    {
        string_of(&style_chars(&chars_of(markdown)))
    }

    /// The fenced-code pass alone.
    pub fn parse_code(&self, markdown: &str) -> (r: String)
        ensures
            r@ == fence_pass(markdown@),
    {
        string_of(&code_chars(&chars_of(markdown), &chars_of("```"), &chars_of("pre")))
    }

    /// The inline-code pass alone.
    pub fn parse_inline_code(&self, markdown: &str) -> (r: String)
        ensures
            r@ == inline_code_pass(markdown@),
    {
        string_of(&code_chars(&chars_of(markdown), &chars_of("`"), &chars_of("code")))
    }

    /// The image pass alone.
    pub fn parse_image(&self, markdown: &str) -> (r: String)
        ensures
            r@ == image_pass(markdown@),
    {
        string_of(
            &bracket_chars(&chars_of(markdown), &chars_of("!["), &chars_of("img"), &chars_of("src")),
        )
    }

    /// The link pass alone.
    pub fn parse_link(&self, markdown: &str) -> (r: String)
        ensures
            r@ == link_pass(markdown@),
    {
        string_of(
            &bracket_chars(&chars_of(markdown), &chars_of("["), &chars_of("a"), &chars_of("href")),
        )
    }
}

} // verus!
