//! The HTML element that every pass emits, and a list of them under one
//! wrapping tag.
use vstd::prelude::*;
use crate::text::{append, chars_of, same, string_of};

verus! {

/// What an element is: its tag, its attributes (if any) in order, and its
/// already rendered content.
pub ghost struct ElementModel {
    pub tag: Seq<char>,
    pub attrs: Option<Seq<(Seq<char>, Seq<char>)>>,
    pub content: Seq<char>,
}

/// No two attributes share a name.
pub open spec fn keys_unique(a: Seq<(Seq<char>, Seq<char>)>) -> bool {
    forall|i: int, j: int| 0 <= i < j < a.len() ==> a[i].0 != a[j].0
}

/// The attributes written out: ` name="value"` for each, in order.
pub open spec fn attrs_html(a: Seq<(Seq<char>, Seq<char>)>) -> Seq<char>
    decreases a.len(),
{
    if a.len() == 0 {
        seq![]
    } else {
        attrs_html(a.drop_last()) + " "@ + a.last().0 + "=\""@ + a.last().1 + "\""@
    }
}

/// The HTML text of an element. Tag `emb` stands for emphasis around strong
/// text and ignores its attributes; `img` carries its content as `alt` and
/// closes itself; `hr` has neither content nor closing tag. Nothing is escaped.
pub open spec fn render(e: ElementModel) -> Seq<char> {
    if e.tag == "emb"@ {
        "<em><strong>"@ + e.content + "</strong></em>"@
    } else {
        let open = "<"@ + e.tag + match e.attrs {
            Some(a) => attrs_html(a),
            None => seq![],
        };
        if e.tag == "img"@ {
            open + " alt=\""@ + e.content + "\"/>"@
        } else if e.tag == "hr"@ {
            open + ">"@
        } else {
            open + ">"@ + e.content + "</"@ + e.tag + ">"@
        }
    }
}

/// The rendered elements one after another.
pub open spec fn render_all(items: Seq<ElementModel>) -> Seq<char>
    decreases items.len(),
{
    if items.len() == 0 {
        seq![]
    } else {
        render_all(items.drop_last()) + render(items.last())
    }
}

/// The HTML text of a list: the rendered items inside one wrapping tag.
pub open spec fn render_list(items: Seq<ElementModel>, wrapper: Seq<char>) -> Seq<char> {
    "<"@ + wrapper + ">"@ + render_all(items) + "</"@ + wrapper + ">"@
}

/// One HTML element.
pub struct HTMLElemnt {
    tag: String,
    attrs: Option<Vec<(String, String)>>,
    childrens: String,
}

/// The attribute pairs held by a vector.
pub open spec fn attrs_view(a: Seq<(String, String)>) -> Seq<(Seq<char>, Seq<char>)> {
    a.map_values(|p: (String, String)| (p.0@, p.1@))
}

impl View for HTMLElemnt {
    type V = ElementModel;

    closed spec fn view(&self) -> ElementModel {
        ElementModel {
            tag: self.tag@,
            attrs: match self.attrs {
                Some(a) => Some(attrs_view(a@)),
                None => None,
            },
            content: self.childrens@,
        }
    }
}

impl HTMLElemnt {
    /// The element's attributes have distinct names.
    pub open spec fn wf(&self) -> bool {
        match self@.attrs {
            Some(a) => keys_unique(a),
            None => true,
        }
    }

    pub fn new(tag: String, attrs: Option<Vec<(String, String)>>, childrens: String) -> (r:
        HTMLElemnt)
        requires
            match attrs {
                Some(a) => keys_unique(attrs_view(a@)),
                None => true,
            },
        ensures
            r@ == (ElementModel {
                tag: tag@,
                attrs: match attrs {
                    Some(a) => Some(attrs_view(a@)),
                    None => None,
                },
                content: childrens@,
            }),
            r.wf(),
    {
        HTMLElemnt { tag, attrs, childrens }
    }

    pub fn to_html(&self) -> (r: String)
        ensures
            r@ == render(self@),
    {
        let tag = chars_of(self.tag.as_str());
        let content = chars_of(self.childrens.as_str());
        let mut out: Vec<char> = Vec::new();
        if same(&tag, &chars_of("emb")) {
            append(&mut out, &chars_of("<em><strong>"));
            append(&mut out, &content);
            append(&mut out, &chars_of("</strong></em>"));
            return string_of(&out);
        }
        append(&mut out, &chars_of("<"));
        append(&mut out, &tag);
        match &self.attrs {
            Some(a) => append_attrs(&mut out, a),
            None => {},
        }
        if same(&tag, &chars_of("img")) {
            append(&mut out, &chars_of(" alt=\""));
            append(&mut out, &content);
            append(&mut out, &chars_of("\"/>"));
        } else if same(&tag, &chars_of("hr")) {
            append(&mut out, &chars_of(">"));
        } else {
            append(&mut out, &chars_of(">"));
            append(&mut out, &content);
            append(&mut out, &chars_of("</"));
            append(&mut out, &tag);
            append(&mut out, &chars_of(">"));
        }
        string_of(&out)
    }
}

/// Appends the attributes, written out, to `out`.
fn append_attrs(out: &mut Vec<char>, a: &Vec<(String, String)>)
    ensures
        final(out)@ == old(out)@ + attrs_html(attrs_view(a@)),
{
    let mut i: usize = 0;
    while i < a.len()
        invariant
            i <= a@.len(),
            out@ == old(out)@ + attrs_html(attrs_view(a@.subrange(0, i as int))),
        decreases a@.len() - i,
    {
        let ghost before = out@;
        append(out, &chars_of(" "));
        append(out, &chars_of(a[i].0.as_str()));
        append(out, &chars_of("=\""));
        append(out, &chars_of(a[i].1.as_str()));
        append(out, &chars_of("\""));
        i = i + 1;
        let ghost s = attrs_view(a@.subrange(0, i as int));
        assert(s.drop_last() =~= attrs_view(a@.subrange(0, i - 1)));
        assert(out@ =~= old(out)@ + attrs_html(s));
    }
    assert(a@.subrange(0, a@.len() as int) == a@);
}

/// A sequence of elements rendered together under one wrapping tag.
pub struct HTMLElemntList {
    elemnts: Vec<HTMLElemnt>,
    list_type: String,
}

/// What a list is: its items, in order, and its wrapping tag.
pub ghost struct ListModel {
    pub items: Seq<ElementModel>,
    pub wrapper: Seq<char>,
}

impl View for HTMLElemntList {
    type V = ListModel;

    closed spec fn view(&self) -> ListModel {
        ListModel {
            items: self.elemnts@.map_values(|e: HTMLElemnt| e@),
            wrapper: self.list_type@,
        }
    }
}

impl HTMLElemntList {
    pub fn new(list_type: String) -> (r: HTMLElemntList)
        ensures
            r@.items == Seq::<ElementModel>::empty(),
            r@.wrapper == list_type@,
    {
        let r = HTMLElemntList { elemnts: Vec::new(), list_type };
        assert(r@.items =~= Seq::<ElementModel>::empty());
        r
    }

    pub fn add(&mut self, elemnt: HTMLElemnt)
        ensures
            final(self)@.items == old(self)@.items.push(elemnt@),
            final(self)@.wrapper == old(self)@.wrapper,
    {
        let ghost e = elemnt@;
        self.elemnts.push(elemnt);
        assert(self@.items =~= old(self)@.items.push(e));
    }

    /// The number of items.
    pub fn len(&self) -> (r: usize)
        ensures
            r == self@.items.len(),
    {
        self.elemnts.len()
    }

    pub fn clear(&mut self)
        ensures
            final(self)@.items == Seq::<ElementModel>::empty(),
            final(self)@.wrapper == old(self)@.wrapper,
    {
        self.elemnts.clear();
        assert(self@.items =~= Seq::<ElementModel>::empty());
    }

    pub fn to_html(&self) -> (r: String)
        ensures
            r@ == render_list(self@.items, self@.wrapper),
    {
        let wrapper = chars_of(self.list_type.as_str());
        let mut out: Vec<char> = Vec::new();
        append(&mut out, &chars_of("<"));
        append(&mut out, &wrapper);
        append(&mut out, &chars_of(">"));
        let ghost start = out@;
        let mut i: usize = 0;
        while i < self.elemnts.len()
            invariant
                i <= self@.items.len(),
                self@.items.len() == self.elemnts@.len(),
                out@ == start + render_all(self@.items.subrange(0, i as int)),
            decreases self.elemnts@.len() - i,
        {
            let item = chars_of(self.elemnts[i].to_html().as_str());
            append(&mut out, &item);
            i = i + 1;
            assert(self@.items.subrange(0, i as int).drop_last() =~= self@.items.subrange(
                0,
                i - 1,
            ));
            assert(out@ =~= start + render_all(self@.items.subrange(0, i as int)));
        }
        assert(self@.items.subrange(0, i as int) == self@.items);
        append(&mut out, &chars_of("</"));
        append(&mut out, &wrapper);
        append(&mut out, &chars_of(">"));
        string_of(&out)
    }
}

} // verus!
