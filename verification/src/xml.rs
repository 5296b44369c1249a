//! XML ingestion: a tokenizer backed by an outside pull parser, and a
//! verified document builder that folds the token stream into an
//! index-based element tree.

use quick_xml::events::Event;
use vstd::prelude::*;

verus! {

/// One token of an XML document, as handed over by the tokenizer.
pub enum XmlToken {
    /// An opening tag with its attributes; self-closing tags are expanded
    /// into an open token followed by a close token.
    Open { name: String, attrs: Vec<(String, String)> },
    /// A closing tag.
    Close,
    /// Character data between tags.
    Text { content: String },
    /// A general reference such as an entity or character reference.
    Reference { name: String },
    /// Markup that carries no content for this library: comments,
    /// declarations, processing instructions, doctypes.
    Skip,
    /// The end of the input.
    End,
    /// A syntax error in the input.
    Fault,
}

/// The mathematical image of one token.
pub enum Tok {
    Open { name: Seq<char>, attrs: Seq<(Seq<char>, Seq<char>)> },
    Close,
    Text { content: Seq<char> },
    Reference { name: Seq<char> },
    Skip,
    End,
    Fault,
}

impl View for XmlToken {
    type V = Tok;

    open spec fn view(&self) -> Tok {
        match self {
            XmlToken::Open { name, attrs } => Tok::Open {
                name: name@,
                attrs: attrs@.map_values(|p: (String, String)| (p.0@, p.1@)),
            },
            XmlToken::Close => Tok::Close,
            XmlToken::Text { content } => Tok::Text { content: content@ },
            XmlToken::Reference { name } => Tok::Reference { name: name@ },
            XmlToken::Skip => Tok::Skip,
            XmlToken::End => Tok::End,
            XmlToken::Fault => Tok::Fault,
        }
    }
}

#[verifier::external_type_specification]
#[verifier::external_body]
#[verifier::reject_recursive_types(R)]
pub struct ExXmlReader<R>(quick_xml::Reader<R>);

#[verifier::external_type_specification]
#[verifier::external_body]
#[verifier::reject_recursive_types(T)]
pub struct ExCursor<T>(std::io::Cursor<T>);

#[verifier::external_type_specification]
#[verifier::external_body]
pub struct ExBytesStart<'a>(quick_xml::events::BytesStart<'a>);

/// The tokenizer over an owned copy of the input text.
pub type Tokenizer = quick_xml::Reader<std::io::Cursor<Vec<u8>>>;

/// The sequence of tokens that a tokenizer will emit from here on.
pub uninterp spec fn token_stream(r: &Tokenizer) -> Seq<Tok>;

/// The sequence of tokens that tokenizing the given text emits.
pub uninterp spec fn toks_of(text: Seq<char>) -> Seq<Tok>;

/// Relies on quick_xml::Reader::from_reader and Config: the reader emits
/// the events of the given text in order, with self-closing tags expanded
/// into a start and an end event.
#[verifier::external_body]
pub fn tokenizer(text: &str) -> (r: Tokenizer)
    ensures
        token_stream(&r) == toks_of(text@),
{
    let mut r = quick_xml::Reader::from_reader(std::io::Cursor::new(text.as_bytes().to_vec()));
    r.config_mut().expand_empty_elements = true;
    r
}

/// Relies on quick_xml::Reader::read_event_into: each call returns the next
/// event of the input, converted to an owned token; after the end of the
/// input it keeps returning an end token.
#[verifier::external_body]
pub fn next_token(r: &mut Tokenizer) -> (t: XmlToken)
    ensures
        token_stream(old(r)).len() == 0 ==> t@ == Tok::End && token_stream(final(r))
            == token_stream(old(r)),
        token_stream(old(r)).len() > 0 ==> t@ == token_stream(old(r))[0] && token_stream(final(r))
            == token_stream(old(r)).drop_first(),
{
    let mut buf: Vec<u8> = Vec::new();
    match r.read_event_into(&mut buf) {
        Ok(Event::Start(e)) => open_token(&e),
        Ok(Event::End(_)) => XmlToken::Close,
        Ok(Event::Text(t)) => XmlToken::Text { content: t.into_inner().into_owned() },
        Ok(Event::CData(t)) => XmlToken::Text { content: t.into_inner().into_owned() },
        Ok(Event::GeneralRef(e)) => XmlToken::Reference { name: e.into_inner().into_owned() },
        Ok(Event::Eof) => XmlToken::End,
        Ok(_) => XmlToken::Skip,
        Err(_) => XmlToken::Fault,
    }
}

/// Relies on BytesStart::name and Attributes: the tag's full name and its
/// attribute pairs in order, each value normalized.
#[verifier::external_body]
fn open_token(e: &quick_xml::events::BytesStart<'_>) -> (t: XmlToken)
    ensures
        t is Open,
{
    XmlToken::Open {
        name: e.name().as_ref().to_string(),
        attrs: e.attributes().flatten().map(|a| (a.key.as_ref().to_string(),
            a.normalized_value(quick_xml::XmlVersion::Implicit1_0)
                .unwrap_or_default().into_owned())).collect(),
    }
}

/// Relies on String::push_str: appends the slice to the string.
pub assume_specification[ String::push_str ](s: &mut String, other: &str)
    ensures
        final(s)@ == old(s)@ + other@,
;

/// Relies on String::push: appends the character to the string.
pub assume_specification[ String::push ](s: &mut String, c: char)
    ensures
        final(s)@ == old(s)@.push(c),
;

// ---- the element tree ----

/// One element of a parsed document. Children are indices into the
/// document's node table; a child's index is always greater than its
/// parent's.
pub struct XmlNode {
    /// The local name of the element, with any namespace prefix removed.
    pub name: String,
    /// The attributes, in document order, with their full names.
    pub attrs: Vec<(String, String)>,
    /// The concatenated character data lying directly under this element.
    pub text: String,
    /// The indices of the child elements, in document order.
    pub children: Vec<usize>,
}

/// A parsed document: the node table in document order. The root is node 0.
pub struct XmlDoc {
    pub nodes: Vec<XmlNode>,
}

/// The mathematical image of one element.
#[verifier::ext_equal]
pub struct NodeV {
    pub name: Seq<char>,
    pub attrs: Seq<(Seq<char>, Seq<char>)>,
    pub text: Seq<char>,
    pub children: Seq<int>,
}

/// The mathematical image of a document.
#[verifier::ext_equal]
pub struct DocV {
    pub nodes: Seq<NodeV>,
}

impl View for XmlNode {
    type V = NodeV;

    open spec fn view(&self) -> NodeV {
        NodeV {
            name: self.name@,
            attrs: self.attrs@.map_values(|p: (String, String)| (p.0@, p.1@)),
            text: self.text@,
            children: self.children@.map_values(|u: usize| u as int),
        }
    }
}

impl View for XmlDoc {
    type V = DocV;

    open spec fn view(&self) -> DocV {
        DocV { nodes: self.nodes@.map_values(|n: XmlNode| n@) }
    }
}

impl DocV {
    /// Every child index points past its parent and into the table, and the
    /// table is not empty; node 0 is the root.
    pub open spec fn wf(self) -> bool {
        &&& self.nodes.len() > 0
        &&& forall|i: int, j: int|
            0 <= i < self.nodes.len() && 0 <= j < self.nodes[i].children.len() ==> i < #[trigger] self.nodes[i].children[j]
                < self.nodes.len()
    }
}

impl XmlDoc {
    pub open spec fn wf(self) -> bool {
        self@.wf()
    }
}

// ---- local names ----

/// The name with everything up to and including the first colon removed.
pub open spec fn after_colon(s: Seq<char>) -> Seq<char>
    decreases s.len(),
{
    if s.len() == 0 {
        s
    } else if s[0] == ':' {
        s.drop_first()
    } else {
        after_colon(s.drop_first())
    }
}

pub open spec fn has_colon(s: Seq<char>) -> bool {
    exists|i: int| 0 <= i < s.len() && s[i] == ':'
}

/// The local part of a possibly prefixed XML name.
pub open spec fn local_of(s: Seq<char>) -> Seq<char> {
    if has_colon(s) {
        after_colon(s)
    } else {
        s
    }
}

proof fn lemma_after_colon(s: Seq<char>, i: int)
    requires
        0 <= i < s.len(),
        s[i] == ':',
        forall|j: int| 0 <= j < i ==> s[j] != ':',
    ensures
        after_colon(s) == s.subrange(i + 1, s.len() as int),
        has_colon(s),
    decreases i,
{
    if i == 0 {
        assert(s.drop_first() =~= s.subrange(1, s.len() as int));
    } else {
        let t = s.drop_first();
        lemma_after_colon(t, i - 1);
        assert(t.subrange(i, t.len() as int) =~= s.subrange(i + 1, s.len() as int));
    }
}

/// Strips a namespace prefix from an element name.
pub fn local_name(s: &str) -> (r: String)
    ensures
        r@ == local_of(s@),
{
    let len = s.unicode_len();
    let mut i: usize = 0;
    while i < len
        invariant
            0 <= i <= len == s@.len(),
            forall|j: int| 0 <= j < i ==> s@[j] != ':',
        decreases len - i,
    {
        if s.get_char(i) == ':' {
            let out = s.substring_char(i + 1, len);
            proof {
                lemma_after_colon(s@, i as int);
            }
            return out.to_owned();
        }
        i = i + 1;
    }
    assert(!has_colon(s@));
    s.to_owned()
}

// ---- character and entity references ----

/// The character that a general reference stands for: one of the five
/// predefined entities, or an ASCII character reference in decimal or
/// hexadecimal. Anything else is dropped.
pub open spec fn spec_ref_char(name: Seq<char>) -> Option<char> {
    if name == "amp"@ {
        Some('&')
    } else if name == "lt"@ {
        Some('<')
    } else if name == "gt"@ {
        Some('>')
    } else if name == "quot"@ {
        Some('"')
    } else if name == "apos"@ {
        Some('\'')
    } else if name.len() >= 2 && name[0] == '#' && name[1] == 'x' {
        match crate::numbers::spec_parse_radix(name.subrange(2, name.len() as int), 16) {
            Some(v) => if 0 < v < 128 {
                Some((v as u8) as char)
            } else {
                None
            },
            None => None,
        }
    } else if name.len() >= 1 && name[0] == '#' {
        match crate::numbers::spec_parse_radix(name.subrange(1, name.len() as int), 10) {
            Some(v) => if 0 < v < 128 {
                Some((v as u8) as char)
            } else {
                None
            },
            None => None,
        }
    } else {
        None
    }
}

/// Resolves a general reference to its character, where it has one.
pub fn ref_char(name: &str) -> (r: Option<char>)
    ensures
        r == spec_ref_char(name@),
{
    if crate::numbers::str_eq(name, "amp") {
        Some('&')
    } else if crate::numbers::str_eq(name, "lt") {
        Some('<')
    } else if crate::numbers::str_eq(name, "gt") {
        Some('>')
    } else if crate::numbers::str_eq(name, "quot") {
        Some('"')
    } else if crate::numbers::str_eq(name, "apos") {
        Some('\'')
    } else {
        let len = s_len(name);
        if len >= 2 && name.get_char(0) == '#' && name.get_char(1) == 'x' {
            match crate::numbers::parse_radix(name.substring_char(2, len), 16) {
                Some(v) => if 0 < v && v < 128 {
                    Some((v as u8) as char)
                } else {
                    None
                },
                None => None,
            }
        } else if len >= 1 && name.get_char(0) == '#' {
            match crate::numbers::parse_radix(name.substring_char(1, len), 10) {
                Some(v) => if 0 < v && v < 128 {
                    Some((v as u8) as char)
                } else {
                    None
                },
                None => None,
            }
        } else {
            None
        }
    }
}

/// The character length of a string slice.
fn s_len(s: &str) -> (r: usize)
    ensures
        r == s@.len(),
{
    s.unicode_len()
}

// ---- folding the token stream into a document ----

/// The state of the document builder: the nodes built so far, the stack of
/// open elements, and whether a syntax fault was seen.
#[verifier::ext_equal]
pub struct BuildV {
    pub nodes: Seq<NodeV>,
    pub stack: Seq<int>,
    pub fault: bool,
}

pub open spec fn build_init() -> BuildV {
    BuildV { nodes: Seq::empty(), stack: Seq::empty(), fault: false }
}

/// Appends character data to the innermost open element.
pub open spec fn append_text(st: BuildV, content: Seq<char>) -> BuildV {
    if st.stack.len() == 0 {
        st
    } else {
        let i = st.stack.last();
        if 0 <= i < st.nodes.len() {
            BuildV {
                nodes: st.nodes.update(
                    i,
                    NodeV { text: st.nodes[i].text + content, ..st.nodes[i] },
                ),
                stack: st.stack,
                fault: st.fault,
            }
        } else {
            st
        }
    }
}

/// Closes the innermost open element, recording it as a child of the one
/// below it on the stack.
pub open spec fn close_one(st: BuildV) -> BuildV {
    if st.stack.len() == 0 {
        st
    } else {
        let c = st.stack.last();
        let rest = st.stack.drop_last();
        if rest.len() == 0 {
            BuildV { nodes: st.nodes, stack: rest, fault: st.fault }
        } else {
            let p = rest.last();
            if 0 <= p < st.nodes.len() {
                BuildV {
                    nodes: st.nodes.update(
                        p,
                        NodeV { children: st.nodes[p].children.push(c), ..st.nodes[p] },
                    ),
                    stack: rest,
                    fault: st.fault,
                }
            } else {
                BuildV { nodes: st.nodes, stack: rest, fault: st.fault }
            }
        }
    }
}

/// One step of the builder on one token.
pub open spec fn build_step(st: BuildV, t: Tok) -> BuildV {
    match t {
        Tok::Open { name, attrs } => BuildV {
            nodes: st.nodes.push(
                NodeV { name: local_of(name), attrs, text: Seq::empty(), children: Seq::empty() },
            ),
            stack: st.stack.push(st.nodes.len() as int),
            fault: st.fault,
        },
        Tok::Close => if st.stack.len() == 0 {
            BuildV { nodes: st.nodes, stack: st.stack, fault: true }
        } else {
            close_one(st)
        },
        Tok::Text { content } => append_text(st, content),
        Tok::Reference { name } => match spec_ref_char(name) {
            Some(c) => append_text(st, seq![c]),
            None => st,
        },
        Tok::Skip => st,
        Tok::End => st,
        Tok::Fault => BuildV { nodes: st.nodes, stack: st.stack, fault: true },
    }
}

/// What the builder returns at the end of the input: all open elements are
/// closed, and the document stands if anything was built at all.
pub open spec fn finish_eof(st: BuildV) -> Option<DocV>
    decreases st.stack.len(),
{
    if st.fault {
        None
    } else if st.stack.len() == 0 {
        if st.nodes.len() > 0 {
            Some(DocV { nodes: st.nodes })
        } else {
            None
        }
    } else {
        finish_eof(close_one(st))
    }
}

/// What the builder returns on a token stream: it folds tokens until the
/// root element closes, the input ends, or a fault is seen.
pub open spec fn build_run(toks: Seq<Tok>, st: BuildV) -> Option<DocV>
    decreases toks.len(),
{
    if st.fault {
        None
    } else if st.stack.len() == 0 && st.nodes.len() > 0 {
        Some(DocV { nodes: st.nodes })
    } else if toks.len() == 0 {
        finish_eof(st)
    } else if toks[0] is End {
        finish_eof(st)
    } else if toks[0] is Fault {
        None
    } else {
        build_run(toks.drop_first(), build_step(st, toks[0]))
    }
}

/// What parsing a text yields: the document, or nothing when the text is
/// not acceptable XML.
pub open spec fn doc_of(text: Seq<char>) -> Option<DocV> {
    build_run(toks_of(text), build_init())
}

/// The builder's internal well-formedness: stack indices are strictly
/// increasing positions in the node table, and every recorded child index
/// points past its parent and into the table.
pub open spec fn binv(st: BuildV) -> bool {
    &&& forall|k: int| 0 <= k < st.stack.len() ==> 0 <= #[trigger] st.stack[k] < st.nodes.len()
    &&& forall|k: int| 0 <= k < st.stack.len() - 1 ==> #[trigger] st.stack[k] < st.stack[k + 1]
    &&& forall|i: int, j: int|
        0 <= i < st.nodes.len() && 0 <= j < st.nodes[i].children.len() ==> i < #[trigger] st.nodes[i].children[j]
            < st.nodes.len()
}

/// The image of the builder's executable state.
pub open spec fn bview(nodes: Seq<XmlNode>, stack: Seq<usize>) -> BuildV {
    BuildV {
        nodes: nodes.map_values(|n: XmlNode| n@),
        stack: stack.map_values(|u: usize| u as int),
        fault: false,
    }
}

/// Closes the innermost open element in the executable builder state.
fn close_top(nodes: &mut Vec<XmlNode>, stack: &mut Vec<usize>)
    requires
        old(stack)@.len() > 0,
        binv(bview(old(nodes)@, old(stack)@)),
    ensures
        bview(final(nodes)@, final(stack)@) == close_one(bview(old(nodes)@, old(stack)@)),
        binv(bview(final(nodes)@, final(stack)@)),
        final(stack)@.len() == old(stack)@.len() - 1,
{
    let ghost st0 = bview(nodes@, stack@);
    let c = match stack.pop() {
        Some(c) => c,
        None => {
            return ;
        },
    };
    assert(st0.stack.last() == c as int);
    if stack.len() > 0 {
        let p = stack[stack.len() - 1];
        assert(st0.stack[st0.stack.len() - 2] == p as int);
        assert(0 <= p as int && (p as int) < st0.nodes.len());
        nodes[p].children.push(c);
        proof {
            assert(bview(nodes@, stack@).nodes =~~= close_one(st0).nodes);
            assert(bview(nodes@, stack@).stack =~= close_one(st0).stack);
            assert(bview(nodes@, stack@) == close_one(st0));
        }
    } else {
        proof {
            assert(bview(nodes@, stack@).stack =~= close_one(st0).stack);
            assert(bview(nodes@, stack@) == close_one(st0));
        }
    }
}

/// Parses a text into a document: the verified fold of the token stream.
pub fn parse_doc(text: &str) -> (r: Option<XmlDoc>)
    ensures
        match r {
            Some(d) => doc_of(text@) == Some(d@) && d.wf(),
            None => doc_of(text@) is None,
        },
{
    let mut rd = tokenizer(text);
    let mut nodes: Vec<XmlNode> = Vec::new();
    let mut stack: Vec<usize> = Vec::new();
    proof {
        assert(bview(nodes@, stack@).nodes =~= build_init().nodes);
        assert(bview(nodes@, stack@).stack =~= build_init().stack);
        assert(bview(nodes@, stack@) == build_init());
    }
    loop
        invariant
            build_run(toks_of(text@), build_init()) == build_run(
                token_stream(&rd),
                bview(nodes@, stack@),
            ),
            binv(bview(nodes@, stack@)),
        decreases token_stream(&rd).len(),
    {
        let ghost st0 = bview(nodes@, stack@);
        let ghost toks0 = token_stream(&rd);
        if stack.len() == 0 && nodes.len() > 0 {
            assert(build_run(toks0, st0) == Some(DocV { nodes: st0.nodes }));
            let d = XmlDoc { nodes };
            assert(d@.nodes =~= st0.nodes);
            return Some(d);
        }
        let t = next_token(&mut rd);
        match t {
            XmlToken::End => {
                assert(build_run(toks0, st0) == finish_eof(st0));
                let ghost target = finish_eof(st0);
                while stack.len() > 0
                    invariant
                        finish_eof(bview(nodes@, stack@)) == target,
                        binv(bview(nodes@, stack@)),
                    decreases stack@.len(),
                {
                    close_top(&mut nodes, &mut stack);
                }
                if nodes.len() == 0 {
                    return None;
                } else {
                    let d = XmlDoc { nodes };
                    assert(Some(d@) == target);
                    return Some(d);
                }
            },
            XmlToken::Fault => {
                assert(build_run(toks0, st0) is None);
                return None;
            },
            XmlToken::Open { name, attrs } => {
                assert(build_run(toks0, st0) == build_run(
                    toks0.drop_first(),
                    build_step(st0, toks0[0]),
                ));
                let idx = nodes.len();
                let node = XmlNode {
                    name: local_name(name.as_str()),
                    attrs,
                    text: String::new(),
                    children: Vec::new(),
                };
                nodes.push(node);
                stack.push(idx);
                proof {
                    let st1 = build_step(st0, toks0[0]);
                    assert(bview(nodes@, stack@).nodes =~~= st1.nodes);
                    assert(bview(nodes@, stack@).stack =~= st1.stack);
                    assert(bview(nodes@, stack@) == st1);
                }
            },
            XmlToken::Close => {
                assert(build_run(toks0, st0) == build_run(
                    toks0.drop_first(),
                    build_step(st0, toks0[0]),
                ));
                if stack.len() == 0 {
                    assert(build_step(st0, toks0[0]).fault);
                    assert(build_run(toks0.drop_first(), build_step(st0, toks0[0])) is None);
                    return None;
                }
                close_top(&mut nodes, &mut stack);
            },
            XmlToken::Text { content } => {
                assert(build_run(toks0, st0) == build_run(
                    toks0.drop_first(),
                    build_step(st0, toks0[0]),
                ));
                if stack.len() > 0 {
                    let idx = stack[stack.len() - 1];
                    nodes[idx].text.push_str(content.as_str());
                    proof {
                        let st1 = build_step(st0, toks0[0]);
                        assert(bview(nodes@, stack@).nodes =~~= st1.nodes);
                        assert(bview(nodes@, stack@) == st1);
                    }
                } else {
                    assert(build_step(st0, toks0[0]) == st0);
                }
            },
            XmlToken::Reference { name } => {
                assert(build_run(toks0, st0) == build_run(
                    toks0.drop_first(),
                    build_step(st0, toks0[0]),
                ));
                match ref_char(name.as_str()) {
                    Some(c) => {
                        if stack.len() > 0 {
                            let idx = stack[stack.len() - 1];
                            nodes[idx].text.push(c);
                            proof {
                                let st1 = build_step(st0, toks0[0]);
                                assert(st0.nodes[idx as int].text.push(c) =~= st0.nodes[
                                    idx as int
                                ].text + seq![c]);
                                assert(bview(nodes@, stack@).nodes =~~= st1.nodes);
                                assert(bview(nodes@, stack@) == st1);
                            }
                        } else {
                            assert(build_step(st0, toks0[0]) == st0);
                        }
                    },
                    None => {
                        assert(build_step(st0, toks0[0]) == st0);
                    },
                }
            },
            XmlToken::Skip => {
                assert(build_run(toks0, st0) == build_run(
                    toks0.drop_first(),
                    build_step(st0, toks0[0]),
                ));
                assert(build_step(st0, toks0[0]) == st0);
            },
        }
    }
}

// ---- lookups over a document ----

/// The value of the first pair whose key equals the name.
pub open spec fn lookup_pair(ps: Seq<(Seq<char>, Seq<char>)>, key: Seq<char>) -> Option<Seq<char>>
    decreases ps.len(),
{
    if ps.len() == 0 {
        None
    } else if ps[0].0 == key {
        Some(ps[0].1)
    } else {
        lookup_pair(ps.drop_first(), key)
    }
}

/// The attribute value under the given name, if any.
pub open spec fn spec_attr(n: NodeV, name: Seq<char>) -> Option<Seq<char>> {
    lookup_pair(n.attrs, name)
}

/// The index of the first child of node `i` whose name equals `name`.
pub open spec fn first_named(nodes: Seq<NodeV>, cs: Seq<int>, name: Seq<char>) -> Option<int>
    decreases cs.len(),
{
    if cs.len() == 0 {
        None
    } else if 0 <= cs[0] < nodes.len() && nodes[cs[0]].name == name {
        Some(cs[0])
    } else {
        first_named(nodes, cs.drop_first(), name)
    }
}

pub open spec fn spec_child(doc: DocV, i: int, name: Seq<char>) -> Option<int> {
    first_named(doc.nodes, doc.nodes[i].children, name)
}

/// The text of the first child with the given name, if any.
pub open spec fn spec_child_text(doc: DocV, i: int, name: Seq<char>) -> Option<Seq<char>> {
    match spec_child(doc, i, name) {
        Some(j) => Some(doc.nodes[j].text),
        None => None,
    }
}

/// Looks an attribute of node `i` up by name.
pub fn attr_opt(doc: &XmlDoc, i: usize, name: &str) -> (r: Option<String>)
    requires
        i < doc@.nodes.len(),
    ensures
        match r {
            Some(s) => spec_attr(doc@.nodes[i as int], name@) == Some(s@),
            None => spec_attr(doc@.nodes[i as int], name@) is None,
        },
{
    let node = &doc.nodes[i];
    let n = node.attrs.len();
    let mut k: usize = 0;
    assert(node@.attrs.skip(0) =~= node@.attrs);
    while k < n
        invariant
            0 <= k <= n == node.attrs@.len(),
            node@ == doc@.nodes[i as int],
            lookup_pair(node@.attrs, name@) == lookup_pair(
                node@.attrs.skip(k as int),
                name@,
            ),
        decreases n - k,
    {
        let ghost pre = node@.attrs.skip(k as int);
        assert(pre[0] == node@.attrs[k as int]);
        if crate::numbers::str_eq(node.attrs[k].0.as_str(), name) {
            return Some(node.attrs[k].1.clone());
        }
        k = k + 1;
        assert(pre.drop_first() =~= node@.attrs.skip(k as int));
    }
    assert(node@.attrs.skip(n as int) =~= Seq::<(Seq<char>, Seq<char>)>::empty());
    None
}

/// The required-attribute lookup: a missing attribute is an error naming it.
pub fn attr_map(doc: &XmlDoc, i: usize, name: &str) -> (r: Result<String, crate::error::Error>)
    requires
        i < doc@.nodes.len(),
    ensures
        match r {
            Ok(s) => spec_attr(doc@.nodes[i as int], name@) == Some(s@),
            Err(e) => spec_attr(doc@.nodes[i as int], name@) is None && e@
                == crate::error::ErrV::MissingAttribute(name@),
        },
{
    match attr_opt(doc, i, name) {
        Some(s) => Ok(s),
        None => Err(crate::error::Error::MissingAttribute(name.to_owned())),
    }
}

/// A numeric attribute in hexadecimal, octal or decimal form.
pub fn attr_parse_hex(doc: &XmlDoc, i: usize, name: &str) -> (r: Result<u64, crate::error::Error>)
    requires
        i < doc@.nodes.len(),
    ensures
        ({
            let a = spec_attr(doc@.nodes[i as int], name@);
            match r {
                Ok(v) => a is Some && crate::numbers::spec_parse_number(a.unwrap()) == Some(v),
                Err(e) => match e@ {
                    crate::error::ErrV::MissingAttribute(n) => n == name@ && a is None,
                    crate::error::ErrV::BadNumber(s) => a == Some(s)
                        && crate::numbers::spec_parse_number(s) is None,
                    _ => false,
                },
            }
        }),
{
    match attr_opt(doc, i, name) {
        Some(s) => match crate::numbers::parse_number(s.as_str()) {
            Some(v) => Ok(v),
            None => Err(crate::error::Error::BadNumber(s)),
        },
        None => Err(crate::error::Error::MissingAttribute(name.to_owned())),
    }
}

/// A decimal attribute.
pub fn attr_parse(doc: &XmlDoc, i: usize, name: &str) -> (r: Result<u64, crate::error::Error>)
    requires
        i < doc@.nodes.len(),
    ensures
        ({
            let a = spec_attr(doc@.nodes[i as int], name@);
            match r {
                Ok(v) => a is Some && crate::numbers::spec_parse_radix(a.unwrap(), 10) == Some(v),
                Err(e) => match e@ {
                    crate::error::ErrV::MissingAttribute(n) => n == name@ && a is None,
                    crate::error::ErrV::BadNumber(s) => a == Some(s)
                        && crate::numbers::spec_parse_radix(s, 10) is None,
                    _ => false,
                },
            }
        }),
{
    match attr_opt(doc, i, name) {
        Some(s) => match crate::numbers::parse_radix(s.as_str(), 10) {
            Some(v) => Ok(v),
            None => Err(crate::error::Error::BadNumber(s)),
        },
        None => Err(crate::error::Error::MissingAttribute(name.to_owned())),
    }
}

/// A boolean attribute over the literals `true`, `1`, `false`, `0`, with a
/// default for a missing or unreadable value.
pub fn attr_parse_bool_or(doc: &XmlDoc, i: usize, name: &str, dflt: bool) -> (r: bool)
    requires
        i < doc@.nodes.len(),
    ensures
        ({
            let a = spec_attr(doc@.nodes[i as int], name@);
            match a {
                Some(s) => match crate::numbers::spec_parse_bool(s) {
                    Some(b) => r == b,
                    None => r == dflt,
                },
                None => r == dflt,
            }
        }),
{
    match attr_opt(doc, i, name) {
        Some(s) => match crate::numbers::parse_bool(s.as_str()) {
            Some(b) => b,
            None => dflt,
        },
        None => dflt,
    }
}

/// The index of the first child with the given name.
pub fn find_child(doc: &XmlDoc, i: usize, name: &str) -> (r: Option<usize>)
    requires
        doc.wf(),
        i < doc@.nodes.len(),
    ensures
        match r {
            Some(j) => spec_child(doc@, i as int, name@) == Some(j as int) && j < doc@.nodes.len()
                && doc@.nodes[j as int].name == name@,
            None => spec_child(doc@, i as int, name@) is None,
        },
{
    let n = doc.nodes[i].children.len();
    let mut k: usize = 0;
    assert(doc@.nodes[i as int].children.skip(0) =~= doc@.nodes[i as int].children);
    while k < n
        invariant
            doc.wf(),
            i < doc@.nodes.len(),
            0 <= k <= n == doc@.nodes[i as int].children.len(),
            first_named(doc@.nodes, doc@.nodes[i as int].children, name@) == first_named(
                doc@.nodes,
                doc@.nodes[i as int].children.skip(k as int),
                name@,
            ),
        decreases n - k,
    {
        let ghost pre = doc@.nodes[i as int].children.skip(k as int);
        assert(pre[0] == doc@.nodes[i as int].children[k as int]);
        let j = doc.nodes[i].children[k];
        assert(j as int == doc@.nodes[i as int].children[k as int]);
        if crate::numbers::str_eq(doc.nodes[j].name.as_str(), name) {
            return Some(j);
        }
        k = k + 1;
        assert(pre.drop_first() =~= doc@.nodes[i as int].children.skip(k as int));
    }
    assert(doc@.nodes[i as int].children.skip(n as int) =~= Seq::<int>::empty());
    None
}

/// The concatenated text of the first child with the given name; a missing
/// child is an error naming it.
pub fn child_text(doc: &XmlDoc, i: usize, name: &str) -> (r: Result<String, crate::error::Error>)
    requires
        doc.wf(),
        i < doc@.nodes.len(),
    ensures
        match r {
            Ok(s) => spec_child_text(doc@, i as int, name@) == Some(s@),
            Err(e) => spec_child_text(doc@, i as int, name@) is None && e@
                == crate::error::ErrV::MissingChild(name@),
        },
{
    match find_child(doc, i, name) {
        Some(j) => Ok(doc.nodes[j].text.clone()),
        None => Err(crate::error::Error::MissingChild(name.to_owned())),
    }
}

/// Fails when the local name of node `i` differs from the expected name.
pub fn assert_root_name(doc: &XmlDoc, i: usize, name: &str) -> (r: Result<
    (),
    crate::error::Error,
>)
    requires
        i < doc@.nodes.len(),
    ensures
        match r {
            Ok(()) => doc@.nodes[i as int].name == name@,
            Err(e) => doc@.nodes[i as int].name != name@ && e@ == crate::error::ErrV::WrongRoot(
                name@,
                doc@.nodes[i as int].name,
            ),
        },
{
    if crate::numbers::str_eq(doc.nodes[i].name.as_str(), name) {
        Ok(())
    } else {
        Err(crate::error::Error::WrongRoot(name.to_owned(), doc.nodes[i].name.clone()))
    }
}

/// Whether node `i` bears the given name.
pub fn name_is(doc: &XmlDoc, i: usize, name: &str) -> (r: bool)
    requires
        i < doc@.nodes.len(),
    ensures
        r == (doc@.nodes[i as int].name == name@),
{
    crate::numbers::str_eq(doc.nodes[i].name.as_str(), name)
}

/// The number of child elements of node `i`.
pub fn child_count(doc: &XmlDoc, i: usize) -> (r: usize)
    requires
        i < doc@.nodes.len(),
    ensures
        r == doc@.nodes[i as int].children.len(),
{
    doc.nodes[i].children.len()
}

/// The index of the `k`-th child element of node `i`.
pub fn child_at(doc: &XmlDoc, i: usize, k: usize) -> (r: usize)
    requires
        doc.wf(),
        i < doc@.nodes.len(),
        k < doc@.nodes[i as int].children.len(),
    ensures
        r as int == doc@.nodes[i as int].children[k as int],
        i < r < doc@.nodes.len(),
{
    doc.nodes[i].children[k]
}

/// The local name of node `i`.
pub fn node_name(doc: &XmlDoc, i: usize) -> (r: String)
    requires
        i < doc@.nodes.len(),
    ensures
        r@ == doc@.nodes[i as int].name,
{
    doc.nodes[i].name.clone()
}

/// The concatenated character data directly under node `i`.
pub fn node_text(doc: &XmlDoc, i: usize) -> (r: String)
    requires
        i < doc@.nodes.len(),
    ensures
        r@ == doc@.nodes[i as int].text,
{
    doc.nodes[i].text.clone()
}

} // verus!

