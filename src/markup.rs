//! A generic XML element tree: the shape every message is mapped onto, its
//! writer (namespace declarations, escaping), and its reader, which builds
//! the tree from the events of `xml-rs`.

use vstd::prelude::*;
use crate::text::{push_str, string_of, chars_of};
use xml::reader::XmlEvent as XmlReaderEvent;
use xml::reader::EventReader;

verus! {

broadcast use vstd::std_specs::vec::axiom_vec_index_decreases;

/// An attribute with its namespace prefix (empty for none).
#[derive(Debug)]
pub struct Attribute {
    pub prefix: String,
    pub namespace: String,
    pub name: String,
    pub value: String,
}

/// An element: qualified name, attributes, character content and child
/// elements, in document order.
#[derive(Debug)]
pub struct Element {
    pub prefix: String,
    pub namespace: String,
    pub name: String,
    pub attributes: Vec<Attribute>,
    /// Prefixes this element binds besides those its own names need, as
    /// (prefix, namespace); a prefix already bound the same way is skipped.
    pub namespaces: Vec<(String, String)>,
    pub text: String,
    pub children: Vec<Element>,
}

/// Why a text or a tree is not the message that was asked for.
#[derive(Debug, PartialEq, Eq)]
pub enum DecodeError {
    /// The text is not well-formed XML.
    Malformed(String),
    /// The root element has another name than the one asked for.
    WrongElement(String),
    /// A required child element is absent.
    MissingField(String),
    /// A primitive field holds a text its type does not accept.
    BadValue { field: String, text: String },
}

/// Whether `e` has this namespace and local name.
pub open spec fn named(e: Element, ns: Seq<char>, name: Seq<char>) -> bool {
    e.namespace@ == ns && e.name@ == name
}

/// The index of the first element of `cs` with this name.
pub open spec fn find_spec(cs: Seq<Element>, ns: Seq<char>, name: Seq<char>) -> Option<int>
    decreases cs.len(),
{
    if cs.len() == 0 {
        None
    } else {
        match find_spec(cs.drop_last(), ns, name) {
            Some(i) => Some(i),
            None => if named(cs.last(), ns, name) {
                Some(cs.len() - 1)
            } else {
                None
            },
        }
    }
}

/// The found index names an element with that name, and no earlier one has it.
pub proof fn lemma_find_spec(cs: Seq<Element>, ns: Seq<char>, name: Seq<char>)
    ensures
        find_spec(cs, ns, name) matches Some(i) ==> 0 <= i < cs.len() && named(cs[i], ns, name)
            && forall|j: int| 0 <= j < i ==> !named(#[trigger] cs[j], ns, name),
        find_spec(cs, ns, name) is None ==> forall|j: int|
            0 <= j < cs.len() ==> !named(#[trigger] cs[j], ns, name),
    decreases cs.len(),
{
    if cs.len() > 0 {
        lemma_find_spec(cs.drop_last(), ns, name);
        assert forall|j: int| 0 <= j < cs.len() - 1 implies cs[j] == cs.drop_last()[j] by {}
    }
}

/// If element `i` is the first with that name, it is the one found.
pub proof fn lemma_find_first(cs: Seq<Element>, ns: Seq<char>, name: Seq<char>, i: int)
    requires
        0 <= i < cs.len(),
        named(cs[i], ns, name),
        forall|j: int| 0 <= j < i ==> !named(#[trigger] cs[j], ns, name),
    ensures
        find_spec(cs, ns, name) == Some(i),
{
    lemma_find_spec(cs, ns, name);
}

/// If no element has that name, none is found.
pub proof fn lemma_find_none(cs: Seq<Element>, ns: Seq<char>, name: Seq<char>)
    requires
        forall|j: int| 0 <= j < cs.len() ==> !named(#[trigger] cs[j], ns, name),
    ensures
        find_spec(cs, ns, name) is None,
{
    lemma_find_spec(cs, ns, name);
}

/// The index of the first child of `e` with this namespace and local name.
pub fn find_child(e: &Element, ns: &str, name: &str) -> (r: Option<usize>)
    ensures
        r matches Some(i) ==> find_spec(e.children@, ns@, name@) == Some(i as int) && i
            < e.children.len(),
        r is None ==> find_spec(e.children@, ns@, name@) is None,
{
    let mut i: usize = 0;
    while i < e.children.len()
        invariant
            i <= e.children.len(),
            forall|j: int| 0 <= j < i ==> !named(#[trigger] e.children@[j], ns@, name@),
        decreases e.children.len() - i,
    {
        let c = &e.children[i];
        if str_eq(c.namespace.as_str(), ns) && str_eq(c.name.as_str(), name) {
            proof {
                lemma_find_first(e.children@, ns@, name@, i as int);
            }
            return Some(i);
        }
        i = i + 1;
    }
    proof {
        lemma_find_none(e.children@, ns@, name@);
    }
    None
}

/// Whether two strings hold the same characters.
pub fn str_eq(a: &str, b: &str) -> (r: bool)
    ensures
        r == (a@ == b@),
{
    let x = chars_of(a);
    let y = chars_of(b);
    if x.len() != y.len() {
        return false;
    }
    let mut i: usize = 0;
    while i < x.len()
        invariant
            x.len() == y.len(),
            i <= x.len(),
            x@ == a@,
            y@ == b@,
            forall|j: int| 0 <= j < i ==> x@[j] == y@[j],
        decreases x.len() - i,
    {
        if x[i] != y[i] {
            return false;
        }
        i = i + 1;
    }
    assert(x@ =~= y@);
    true
}

/// An element with this prefix, namespace and local name.
pub open spec fn has_name(e: Element, prefix: Seq<char>, ns: Seq<char>, name: Seq<char>) -> bool {
    &&& e.prefix@ == prefix
    &&& e.namespace@ == ns
    &&& e.name@ == name
}

/// An element with this name and nothing inside.
pub open spec fn bare_spec(e: Element, prefix: Seq<char>, ns: Seq<char>, name: Seq<char>) -> bool {
    &&& e.prefix@ == prefix
    &&& e.namespace@ == ns
    &&& e.name@ == name
    &&& e.attributes@.len() == 0
}

/// An element with this name, character content and no children.
pub open spec fn leaf_spec(
    e: Element,
    prefix: Seq<char>,
    ns: Seq<char>,
    name: Seq<char>,
    text: Seq<char>,
) -> bool {
    &&& bare_spec(e, prefix, ns, name)
    &&& e.text@ == text
    &&& e.children@.len() == 0
}

/// An element with this name, no attributes and no content yet.
pub fn bare(prefix: &str, ns: &str, name: &str) -> (r: Element)
    ensures
        model_of(r) == bare_model(prefix@, ns@, name@),
        bare_spec(r, prefix@, ns@, name@),
        r.text@.len() == 0,
        r.children@.len() == 0,
{
    let r = Element {
        prefix: String::from_str(prefix),
        namespace: String::from_str(ns),
        name: String::from_str(name),
        attributes: Vec::new(),
        namespaces: Vec::new(),
        text: String::new(),
        children: Vec::new(),
    };
    assert(model_of(r).attributes =~= Seq::<(Seq<char>, Seq<char>, Seq<char>, Seq<char>)>::empty());
    assert(model_of(r).namespaces =~= Seq::<(Seq<char>, Seq<char>)>::empty());
    assert(model_of(r).children =~= Seq::<Model>::empty());
    r
}

/// An element holding only the text `text`.
pub fn leaf(prefix: &str, ns: &str, name: &str, text: String) -> (r: Element)
    ensures
        model_of(r) == leaf_model(prefix@, ns@, name@, text@),
        leaf_spec(r, prefix@, ns@, name@, text@),
        r.text == text,
{
    let mut e = bare(prefix, ns, name);
    e.text = text;
    assert(model_of(e).attributes =~= Seq::<(Seq<char>, Seq<char>, Seq<char>, Seq<char>)>::empty());
    assert(model_of(e).namespaces =~= Seq::<(Seq<char>, Seq<char>)>::empty());
    assert(model_of(e).children =~= Seq::<Model>::empty());
    e
}

/// The first child of `e` with this name.
pub open spec fn child(e: Element, ns: Seq<char>, name: Seq<char>) -> Option<Element> {
    match find_spec(e.children@, ns, name) {
        Some(i) => Some(e.children@[i]),
        None => None,
    }
}

/// The elements of `cs` with this name, in order.
pub open spec fn filter_named(cs: Seq<Element>, ns: Seq<char>, name: Seq<char>) -> Seq<Element>
    decreases cs.len(),
{
    if cs.len() == 0 {
        Seq::empty()
    } else if named(cs.last(), ns, name) {
        filter_named(cs.drop_last(), ns, name).push(cs.last())
    } else {
        filter_named(cs.drop_last(), ns, name)
    }
}

/// Filtering a sequence with one more element.
pub broadcast proof fn lemma_filter_push(cs: Seq<Element>, c: Element, ns: Seq<char>, name: Seq<char>)
    ensures
        #[trigger] filter_named(cs.push(c), ns, name) == if named(c, ns, name) {
            filter_named(cs, ns, name).push(c)
        } else {
            filter_named(cs, ns, name)
        },
{
    assert(cs.push(c).drop_last() =~= cs);
}

/// Appending elements that do not have a name changes neither what is found
/// nor what is kept for that name; elements that have it are kept after the
/// others.
pub proof fn lemma_append_named(cs: Seq<Element>, added: Seq<Element>, ns: Seq<char>, name: Seq<char>, n: Seq<char>)
    requires
        forall|i: int| 0 <= i < added.len() ==> named(#[trigger] added[i], ns, name),
    ensures
        n != name ==> find_spec(cs + added, ns, n) == find_spec(cs, ns, n),
        n != name ==> filter_named(cs + added, ns, n) == filter_named(cs, ns, n),
        filter_named(cs + added, ns, name) == filter_named(cs, ns, name) + added,
        forall|i: int| 0 <= i < cs.len() ==> (cs + added)[i] == cs[i],
    decreases added.len(),
{
    if added.len() == 0 {
        assert(cs + added =~= cs);
        assert(filter_named(cs, ns, name) + added =~= filter_named(cs, ns, name));
    } else {
        let rest = added.drop_last();
        assert forall|i: int| 0 <= i < rest.len() implies named(#[trigger] rest[i], ns, name) by {
            assert(rest[i] == added[i]);
        }
        lemma_append_named(cs, rest, ns, name, n);
        assert((cs + added) =~= (cs + rest).push(added.last()));
        assert(named(added.last(), ns, name));
        lemma_filter_push(cs + rest, added.last(), ns, name);
        lemma_filter_push(cs + rest, added.last(), ns, n);
        lemma_find_push(cs + rest, added.last(), ns, n);
        assert(filter_named(cs, ns, name) + rest.push(added.last()) =~= (filter_named(cs, ns, name) + rest).push(added.last()));
        assert(rest.push(added.last()) =~= added);
    }
}

/// What a prefix keeps is a prefix of what the whole keeps.
pub proof fn lemma_filter_extends(cs: Seq<Element>, ns: Seq<char>, name: Seq<char>, i: int, j: int)
    requires
        0 <= i <= j <= cs.len(),
    ensures
        filter_named(cs.subrange(0, i), ns, name).len() <= filter_named(cs.subrange(0, j), ns, name).len(),
        filter_named(cs.subrange(0, j), ns, name).subrange(0, filter_named(cs.subrange(0, i), ns, name).len() as int)
            == filter_named(cs.subrange(0, i), ns, name),
    decreases j - i,
{
    let fi = filter_named(cs.subrange(0, i), ns, name);
    if j == i {
        assert(fi.subrange(0, fi.len() as int) =~= fi);
    } else {
        lemma_filter_extends(cs, ns, name, i, j - 1);
        assert(cs.subrange(0, j) =~= cs.subrange(0, j - 1).push(cs[j - 1]));
        lemma_filter_push(cs.subrange(0, j - 1), cs[j - 1], ns, name);
        let f1 = filter_named(cs.subrange(0, j - 1), ns, name);
        if named(cs[j - 1], ns, name) {
            assert(f1.push(cs[j - 1]).subrange(0, fi.len() as int) =~= f1.subrange(0, fi.len() as int));
        }
    }
}

/// Where element `i` lands among those kept.
pub proof fn lemma_filter_prefix(cs: Seq<Element>, ns: Seq<char>, name: Seq<char>, i: int)
    requires
        0 <= i < cs.len(),
    ensures
        filter_named(cs.subrange(0, i + 1), ns, name) == if named(cs[i], ns, name) {
            filter_named(cs.subrange(0, i), ns, name).push(cs[i])
        } else {
            filter_named(cs.subrange(0, i), ns, name)
        },
        filter_named(cs.subrange(0, i), ns, name) == filter_named(cs, ns, name).subrange(
            0,
            filter_named(cs.subrange(0, i), ns, name).len() as int,
        ),
        named(cs[i], ns, name) ==> filter_named(cs.subrange(0, i), ns, name).len() < filter_named(cs, ns, name).len()
            && filter_named(cs, ns, name)[filter_named(cs.subrange(0, i), ns, name).len() as int] == cs[i],
{
    assert(cs.subrange(0, i + 1) =~= cs.subrange(0, i).push(cs[i]));
    lemma_filter_push(cs.subrange(0, i), cs[i], ns, name);
    lemma_filter_extends(cs, ns, name, i, cs.len() as int);
    lemma_filter_extends(cs, ns, name, i + 1, cs.len() as int);
    assert(cs.subrange(0, cs.len() as int) =~= cs);
    let k = filter_named(cs.subrange(0, i), ns, name).len() as int;
    let whole = filter_named(cs, ns, name);
    if named(cs[i], ns, name) {
        let f1 = filter_named(cs.subrange(0, i + 1), ns, name);
        assert(whole.subrange(0, k + 1)[k] == f1[k]);
    }
}

/// When every element has the name, all of them are kept.
pub proof fn lemma_filter_all_named(cs: Seq<Element>, ns: Seq<char>, name: Seq<char>)
    requires
        forall|i: int| 0 <= i < cs.len() ==> named(#[trigger] cs[i], ns, name),
    ensures
        filter_named(cs, ns, name) == cs,
    decreases cs.len(),
{
    if cs.len() > 0 {
        assert forall|i: int| 0 <= i < cs.len() - 1 implies named(#[trigger] cs.drop_last()[i], ns, name) by {
            assert(cs.drop_last()[i] == cs[i]);
        }
        lemma_filter_all_named(cs.drop_last(), ns, name);
        assert(cs.drop_last().push(cs.last()) =~= cs);
    }
}

/// Finding in a sequence with one more element.
pub broadcast proof fn lemma_find_push(cs: Seq<Element>, c: Element, ns: Seq<char>, name: Seq<char>)
    ensures
        #[trigger] find_spec(cs.push(c), ns, name) == match find_spec(cs, ns, name) {
            Some(i) => Some(i),
            None => if named(c, ns, name) {
                Some(cs.len() as int)
            } else {
                None
            },
        },
{
    assert(cs.push(c).drop_last() =~= cs);
}

/// Appends a child; nothing else changes.
pub fn push_child(e: &mut Element, c: Element)
    ensures
        final(e).prefix == old(e).prefix,
        final(e).namespace == old(e).namespace,
        final(e).name == old(e).name,
        final(e).attributes == old(e).attributes,
        final(e).text == old(e).text,
        final(e).children@ == old(e).children@.push(c),
        final(e).namespaces == old(e).namespaces,
        model_of(*final(e)) == with_child(model_of(*old(e)), model_of(c)),
{
    e.children.push(c);
    assert(model_of(*e).children =~= model_of(*old(e)).children.push(model_of(c)));
    assert(model_of(*e).attributes =~= model_of(*old(e)).attributes);
}

/// The text of the first child with this name.
pub fn child_text(e: &Element, ns: &str, name: &str) -> (r: Option<String>)
    ensures
        r matches Some(t) ==> child(*e, ns@, name@) matches Some(c) && c.text == t,
        r is None ==> child(*e, ns@, name@) is None,
{
    match find_child(e, ns, name) {
        Some(i) => Some(e.children[i].text.clone()),
        None => None,
    }
}

/// The text of the first child with this name, which must be there.
pub fn required_text(e: &Element, ns: &str, name: &str) -> (r: Result<String, DecodeError>)
    ensures
        r matches Ok(t) ==> child(*e, ns@, name@) matches Some(c) && c.text == t,
        r is Err ==> child(*e, ns@, name@) is None,
        r matches Err(x) ==> x is MissingField && (x->MissingField_0)@ == name@,
{
    match child_text(e, ns, name) {
        Some(t) => Ok(t),
        None => Err(DecodeError::MissingField(String::from_str(name))),
    }
}

/// The first child with this name, which must be there.
pub fn required_child<'a>(e: &'a Element, ns: &str, name: &str) -> (r: Result<&'a Element, DecodeError>)
    ensures
        r matches Ok(c) ==> child(*e, ns@, name@) == Some(*c),
        r is Err ==> child(*e, ns@, name@) is None,
        r matches Err(x) ==> x is MissingField && (x->MissingField_0)@ == name@,
{
    match find_child(e, ns, name) {
        Some(i) => Ok(&e.children[i]),
        None => Err(DecodeError::MissingField(String::from_str(name))),
    }
}

// ----------------------------------------------------------------------
// Writing
// ----------------------------------------------------------------------

/// The characters that stand for `c` in content and attribute values.
pub open spec fn escape_char(c: char) -> Seq<char> {
    if c == '&' {
        seq!['&', 'a', 'm', 'p', ';']
    } else if c == '<' {
        seq!['&', 'l', 't', ';']
    } else if c == '>' {
        seq!['&', 'g', 't', ';']
    } else if c == '"' {
        seq!['&', 'q', 'u', 'o', 't', ';']
    } else {
        seq![c]
    }
}

pub open spec fn escape(s: Seq<char>) -> Seq<char>
    decreases s.len(),
{
    if s.len() == 0 {
        Seq::empty()
    } else {
        escape(s.drop_last()) + escape_char(s.last())
    }
}

/// Appends the escaped form of `s`.
pub fn push_escaped(out: &mut Vec<char>, s: &String)
    ensures
        final(out)@ == old(out)@ + escape(s@),
{
    let cs = chars_of(s.as_str());
    let mut i: usize = 0;
    while i < cs.len()
        invariant
            i <= cs.len(),
            cs@ == s@,
            out@ == old(out)@ + escape(cs@.subrange(0, i as int)),
        decreases cs.len() - i,
    {
        let c = cs[i];
        let ghost before = out@;
        if c == '&' {
            out.push('&'); out.push('a'); out.push('m'); out.push('p'); out.push(';');
        } else if c == '<' {
            out.push('&'); out.push('l'); out.push('t'); out.push(';');
        } else if c == '>' {
            out.push('&'); out.push('g'); out.push('t'); out.push(';');
        } else if c == '"' {
            out.push('&'); out.push('q'); out.push('u'); out.push('o'); out.push('t'); out.push(';');
        } else {
            out.push(c);
        }
        assert(out@ =~= before + escape_char(c));
        assert(cs@.subrange(0, i + 1).drop_last() =~= cs@.subrange(0, i as int));
        i = i + 1;
    }
    assert(cs@.subrange(0, cs.len() as int) =~= cs@);
}

/// The namespace bound to `prefix` by the innermost declaration in scope.
pub open spec fn binding(scope: Seq<(String, String)>, prefix: Seq<char>) -> Option<Seq<char>>
    decreases scope.len(),
{
    if scope.len() == 0 {
        None
    } else if scope.last().0@ == prefix {
        Some(scope.last().1@)
    } else {
        binding(scope.drop_last(), prefix)
    }
}

/// `prefix` or `prefix:name`.
pub open spec fn qualified(prefix: Seq<char>, name: Seq<char>) -> Seq<char> {
    if prefix.len() == 0 {
        name
    } else {
        prefix + seq![':'] + name
    }
}

/// ` xmlns="ns"` or ` xmlns:prefix="ns"`.
pub open spec fn declaration_text(prefix: Seq<char>, ns: Seq<char>) -> Seq<char> {
    let xmlns = seq!['x', 'm', 'l', 'n', 's'];
    let attr = if prefix.len() == 0 {
        xmlns
    } else {
        xmlns + seq![':'] + prefix
    };
    seq![' '] + attr + seq!['=', '"'] + escape(ns) + seq!['"']
}

/// The declaration that binding `prefix` to `ns` needs in `scope`, and the
/// scope after it.
pub open spec fn declare(scope: Seq<(String, String)>, prefix: String, ns: String) -> (
    Seq<char>,
    Seq<(String, String)>,
) {
    if binding(scope, prefix@) == Some(ns@) {
        (Seq::empty(), scope)
    } else {
        (declaration_text(prefix@, ns@), scope.push((prefix, ns)))
    }
}

/// The declarations for the prefixes of attributes `i..` of `e`.
pub open spec fn attribute_declarations(e: Element, i: int, scope: Seq<(String, String)>) -> (
    Seq<char>,
    Seq<(String, String)>,
)
    decreases e.attributes@.len() - i,
{
    if i < 0 || i >= e.attributes@.len() {
        (Seq::empty(), scope)
    } else {
        let a = e.attributes@[i];
        let (d, s) = if a.prefix@.len() == 0 {
            (Seq::empty(), scope)
        } else {
            declare(scope, a.prefix, a.namespace)
        };
        let (rest, s2) = attribute_declarations(e, i + 1, s);
        (d + rest, s2)
    }
}

/// The declarations for the bindings `i..` that `e` makes of its own.
pub open spec fn extra_declarations(e: Element, i: int, scope: Seq<(String, String)>) -> (
    Seq<char>,
    Seq<(String, String)>,
)
    decreases e.namespaces@.len() - i,
{
    if i < 0 || i >= e.namespaces@.len() {
        (Seq::empty(), scope)
    } else {
        let (d, s) = declare(scope, e.namespaces@[i].0, e.namespaces@[i].1);
        let (rest, s2) = extra_declarations(e, i + 1, s);
        (d + rest, s2)
    }
}

/// The declarations an element needs, and the scope of its content: its own
/// prefix, the bindings it makes, then the prefixes of its attributes.
pub open spec fn element_declarations(e: Element, scope: Seq<(String, String)>) -> (
    Seq<char>,
    Seq<(String, String)>,
) {
    let (d, s) = declare(scope, e.prefix, e.namespace);
    let (n, s1) = extra_declarations(e, 0, s);
    let (rest, s2) = attribute_declarations(e, 0, s1);
    (d + n + rest, s2)
}

pub open spec fn attribute_text(a: Attribute) -> Seq<char> {
    seq![' '] + qualified(a.prefix@, a.name@) + seq!['=', '"'] + escape(a.value@) + seq!['"']
}

pub open spec fn attributes_text(attrs: Seq<Attribute>) -> Seq<char>
    decreases attrs.len(),
{
    if attrs.len() == 0 {
        Seq::empty()
    } else {
        attributes_text(attrs.drop_last()) + attribute_text(attrs.last())
    }
}

/// The text of `e` in `scope`: start tag with the declarations it needs and
/// its attributes, escaped content, children, end tag.
pub open spec fn element_text(e: Element, scope: Seq<(String, String)>) -> Seq<char>
    decreases e, e.children@.len() + 1,
{
    let (decls, inner) = element_declarations(e, scope);
    let q = qualified(e.prefix@, e.name@);
    seq!['<'] + q + decls + attributes_text(e.attributes@) + seq!['>'] + escape(e.text@)
        + children_text(e, 0, inner) + seq!['<', '/'] + q + seq!['>']
}

/// The text of children `i..` of `e`.
pub open spec fn children_text(e: Element, i: int, scope: Seq<(String, String)>) -> Seq<char>
    decreases e, e.children@.len() - i,
{
    if i < 0 || i >= e.children@.len() {
        Seq::empty()
    } else {
        element_text(e.children@[i], scope) + children_text(e, i + 1, scope)
    }
}


/// Appends `prefix:name`, or `name` when there is no prefix.
fn push_qualified(out: &mut Vec<char>, prefix: &String, name: &String)
    ensures
        final(out)@ == old(out)@ + qualified(prefix@, name@),
{
    if prefix.as_str().unicode_len() == 0 {
        push_str(out, name.as_str());
    } else {
        push_str(out, prefix.as_str());
        out.push(':');
        push_str(out, name.as_str());
        assert(final(out)@ =~= old(out)@ + qualified(prefix@, name@));
    }
}

/// Whether `prefix` is bound to `ns` in `scope`.
fn is_bound(scope: &Vec<(String, String)>, prefix: &String, ns: &String) -> (r: bool)
    ensures
        r == (binding(scope@, prefix@) == Some(ns@)),
{
    let mut i: usize = scope.len();
    assert(scope@.subrange(0, i as int) =~= scope@);
    while i > 0
        invariant
            i <= scope.len(),
            binding(scope@, prefix@) == binding(scope@.subrange(0, i as int), prefix@),
        decreases i,
    {
        let ghost sub = scope@.subrange(0, i as int);
        assert(sub.drop_last() =~= scope@.subrange(0, i - 1));
        if str_eq(scope[i - 1].0.as_str(), prefix.as_str()) {
            return str_eq(scope[i - 1].1.as_str(), ns.as_str());
        }
        i = i - 1;
    }
    false
}

/// Appends the declaration binding `prefix` to `ns` when `scope` lacks it,
/// and records it in `scope`.
fn push_declaration(
    out: &mut Vec<char>,
    scope: &mut Vec<(String, String)>,
    prefix: &String,
    ns: &String,
)
    ensures
        final(out)@ == old(out)@ + declare(old(scope)@, *prefix, *ns).0,
        final(scope)@ == declare(old(scope)@, *prefix, *ns).1,
{
    if !is_bound(scope, prefix, ns) {
        let ghost before = out@;
        out.push(' ');
        push_str(out, "xmlns");
        proof {
            reveal_strlit("xmlns");
        }
        if prefix.as_str().unicode_len() > 0 {
            out.push(':');
            push_str(out, prefix.as_str());
        }
        out.push('=');
        out.push('"');
        push_escaped(out, ns);
        out.push('"');
        assert(out@ =~= before + declaration_text(prefix@, ns@));
        scope.push((prefix.clone(), ns.clone()));
    }
}

/// Appends ` prefix:name="value"`.
fn push_attribute(out: &mut Vec<char>, a: &Attribute)
    ensures
        final(out)@ == old(out)@ + attribute_text(*a),
{
    let ghost before = out@;
    out.push(' ');
    push_qualified(out, &a.prefix, &a.name);
    out.push('=');
    out.push('"');
    push_escaped(out, &a.value);
    out.push('"');
    assert(out@ =~= before + attribute_text(*a));
}

/// Appends the declarations `e` needs in `scope`, and records them there.
fn push_element_declarations(e: &Element, scope: &mut Vec<(String, String)>, decls: &mut Vec<char>)
    ensures
        final(decls)@ == old(decls)@ + element_declarations(*e, old(scope)@).0,
        final(scope)@ == element_declarations(*e, old(scope)@).1,
        old(scope)@.len() <= final(scope)@.len(),
        final(scope)@.subrange(0, old(scope)@.len() as int) == old(scope)@,
{
    let ghost s0 = scope@;
    let ghost d0 = decls@;
    let base = scope.len();
    let ghost total = element_declarations(*e, s0);
    push_declaration(decls, scope, &e.prefix, &e.namespace);
    assert(scope@.subrange(0, base as int) =~= s0);
    let ghost own = decls@;
    let ghost s_own = scope@;
    let ghost after_extra = extra_declarations(*e, 0, s_own);
    let mut m: usize = 0;
    while m < e.namespaces.len()
        invariant
            m <= e.namespaces.len(),
            base == s0.len(),
            base <= scope@.len(),
            scope@.subrange(0, base as int) == s0,
            decls@ + extra_declarations(*e, m as int, scope@).0 == own + after_extra.0,
            extra_declarations(*e, m as int, scope@).1 == after_extra.1,
        decreases e.namespaces.len() - m,
    {
        let ghost sc = scope@;
        let ghost dc = decls@;
        push_declaration(decls, scope, &e.namespaces[m].0, &e.namespaces[m].1);
        proof {
            assert(scope@.subrange(0, base as int) =~= sc.subrange(0, base as int));
            assert(decls@ + extra_declarations(*e, m + 1, scope@).0 =~= dc + extra_declarations(*e, m as int, sc).0);
        }
        m = m + 1;
    }
    assert(decls@ =~= own + after_extra.0);
    assert(scope@ == after_extra.1);
    let mut i: usize = 0;
    while i < e.attributes.len()
        invariant
            i <= e.attributes.len(),
            base == s0.len(),
            base <= scope@.len(),
            scope@.subrange(0, base as int) == s0,
            decls@ + attribute_declarations(*e, i as int, scope@).0 == d0 + total.0,
            attribute_declarations(*e, i as int, scope@).1 == total.1,
        decreases e.attributes.len() - i,
    {
        let a = &e.attributes[i];
        let ghost sc = scope@;
        let ghost dc = decls@;
        if a.prefix.as_str().unicode_len() > 0 {
            push_declaration(decls, scope, &a.prefix, &a.namespace);
        }
        proof {
            assert(scope@.subrange(0, base as int) =~= sc.subrange(0, base as int));
            assert(decls@ + attribute_declarations(*e, i + 1, scope@).0 =~= dc + attribute_declarations(*e, i as int, sc).0);
        }
        i = i + 1;
    }
    assert(decls@ =~= d0 + total.0);
}

/// Appends the attributes of `e`.
fn push_attributes(e: &Element, out: &mut Vec<char>)
    ensures
        final(out)@ == old(out)@ + attributes_text(e.attributes@),
{
    let ghost start = out@;
    let mut j: usize = 0;
    while j < e.attributes.len()
        invariant
            j <= e.attributes.len(),
            out@ == start + attributes_text(e.attributes@.subrange(0, j as int)),
        decreases e.attributes.len() - j,
    {
        push_attribute(out, &e.attributes[j]);
        assert(e.attributes@.subrange(0, j + 1).drop_last() =~= e.attributes@.subrange(0, j as int));
        assert(out@ =~= start + attributes_text(e.attributes@.subrange(0, j + 1)));
        j = j + 1;
    }
    assert(e.attributes@.subrange(0, j as int) =~= e.attributes@);
}

/// Appends the text of `e` in `scope`; `scope` is the same afterwards.
pub fn write_element(e: &Element, scope: &mut Vec<(String, String)>, out: &mut Vec<char>)
    ensures
        final(out)@ == old(out)@ + element_text(*e, old(scope)@),
        final(scope)@ == old(scope)@,
    decreases e,
{
    let ghost s0 = scope@;
    let ghost start = out@;
    let base = scope.len();
    let mut decls: Vec<char> = Vec::new();
    push_element_declarations(e, scope, &mut decls);
    let ghost inner = scope@;
    let ghost head = decls@;
    assert(head =~= element_declarations(*e, s0).0);
    out.push('<');
    push_qualified(out, &e.prefix, &e.name);
    out.append(&mut decls);
    push_attributes(e, out);
    out.push('>');
    push_escaped(out, &e.text);
    let ghost opened = out@;
    let mut k: usize = 0;
    while k < e.children.len()
        invariant
            k <= e.children.len(),
            scope@ == inner,
            out@ + children_text(*e, k as int, inner) == opened + children_text(*e, 0, inner),
        decreases e.children.len() - k,
    {
        let ghost before = out@;
        write_element(&e.children[k], scope, out);
        assert(out@ + children_text(*e, k + 1, inner) =~= before + children_text(*e, k as int, inner));
        k = k + 1;
    }
    let ghost closed = out@;
    assert(closed =~= opened + children_text(*e, 0, inner));
    out.push('<');
    out.push('/');
    push_qualified(out, &e.prefix, &e.name);
    out.push('>');
    assert(out@ =~= start + element_text(*e, s0));
    scope.truncate(base);
}

/// The XML declaration that starts every document.
pub const XML_DECLARATION: &'static str = "<?xml version=\"1.0\" encoding=\"UTF-8\"?>";

/// The document text of `root`: the XML declaration, then the element with
/// each namespace prefix declared where first used.
pub fn write_document(root: &Element) -> (r: String)
    ensures
        r@ == XML_DECLARATION@ + element_text(*root, Seq::empty()),
{
    let mut out: Vec<char> = Vec::new();
    push_str(&mut out, XML_DECLARATION);
    let mut scope: Vec<(String, String)> = Vec::new();
    write_element(root, &mut scope, &mut out);
    assert(scope@ =~= Seq::<(String, String)>::empty());
    string_of(&out)
}

/// All that the writer reads of an element: its qualified name, its
/// attributes as (prefix, namespace, name, value), the bindings it makes, its
/// text and its children.
pub struct Model {
    pub prefix: Seq<char>,
    pub namespace: Seq<char>,
    pub name: Seq<char>,
    pub attributes: Seq<(Seq<char>, Seq<char>, Seq<char>, Seq<char>)>,
    pub namespaces: Seq<(Seq<char>, Seq<char>)>,
    pub text: Seq<char>,
    pub children: Seq<Model>,
}

pub open spec fn attribute_model(a: Attribute) -> (Seq<char>, Seq<char>, Seq<char>, Seq<char>) {
    (a.prefix@, a.namespace@, a.name@, a.value@)
}

pub open spec fn scope_view(s: Seq<(String, String)>) -> Seq<(Seq<char>, Seq<char>)> {
    s.map_values(|p: (String, String)| (p.0@, p.1@))
}

/// The model of an element.
pub open spec fn model_of(e: Element) -> Model
    decreases e,
{
    Model {
        prefix: e.prefix@,
        namespace: e.namespace@,
        name: e.name@,
        attributes: e.attributes@.map_values(|a: Attribute| attribute_model(a)),
        namespaces: scope_view(e.namespaces@),
        text: e.text@,
        children: Seq::new(
            e.children@.len(),
            |i: int|
                if 0 <= i < e.children@.len() {
                    model_of(e.children@[i])
                } else {
                    bare_model(Seq::empty(), Seq::empty(), Seq::empty())
                },
        ),
    }
}

/// An element with this name and nothing else.
pub open spec fn bare_model(prefix: Seq<char>, ns: Seq<char>, name: Seq<char>) -> Model {
    Model {
        prefix,
        namespace: ns,
        name,
        attributes: Seq::empty(),
        namespaces: Seq::empty(),
        text: Seq::empty(),
        children: Seq::empty(),
    }
}

/// An element with this name holding only a text.
pub open spec fn leaf_model(prefix: Seq<char>, ns: Seq<char>, name: Seq<char>, text: Seq<char>) -> Model {
    Model { text, ..bare_model(prefix, ns, name) }
}

/// `m` with one more child.
pub open spec fn with_child(m: Model, c: Model) -> Model {
    Model { children: m.children.push(c), ..m }
}

/// `m` with these children.
pub open spec fn with_children(m: Model, cs: Seq<Model>) -> Model {
    Model { children: m.children + cs, ..m }
}

/// Scopes with the same characters bind prefixes alike.
pub proof fn lemma_binding_view(s1: Seq<(String, String)>, s2: Seq<(String, String)>, p: Seq<char>)
    requires
        scope_view(s1) == scope_view(s2),
    ensures
        binding(s1, p) == binding(s2, p),
    decreases s1.len(),
{
    assert(s1.len() == scope_view(s1).len() && s2.len() == scope_view(s2).len());
    if s1.len() > 0 {
        assert(scope_view(s1.drop_last()) =~= scope_view(s1).drop_last());
        assert(scope_view(s2.drop_last()) =~= scope_view(s2).drop_last());
        assert(scope_view(s1)[s1.len() - 1] == scope_view(s2)[s2.len() - 1]);
        lemma_binding_view(s1.drop_last(), s2.drop_last(), p);
    }
}

/// Declaring the same characters in scopes with the same characters writes
/// the same text and leaves scopes with the same characters.
pub proof fn lemma_declare_view(
    s1: Seq<(String, String)>,
    s2: Seq<(String, String)>,
    p1: String,
    n1: String,
    p2: String,
    n2: String,
)
    requires
        scope_view(s1) == scope_view(s2),
        p1@ == p2@,
        n1@ == n2@,
    ensures
        declare(s1, p1, n1).0 == declare(s2, p2, n2).0,
        scope_view(declare(s1, p1, n1).1) == scope_view(declare(s2, p2, n2).1),
{
    lemma_binding_view(s1, s2, p1@);
    assert(scope_view(s1.push((p1, n1))) =~= scope_view(s1).push((p1@, n1@)));
    assert(scope_view(s2.push((p2, n2))) =~= scope_view(s2).push((p2@, n2@)));
}

pub proof fn lemma_attribute_declarations_view(e1: Element, e2: Element, i: int, s1: Seq<(String, String)>, s2: Seq<(String, String)>)
    requires
        model_of(e1) == model_of(e2),
        scope_view(s1) == scope_view(s2),
    ensures
        attribute_declarations(e1, i, s1).0 == attribute_declarations(e2, i, s2).0,
        scope_view(attribute_declarations(e1, i, s1).1) == scope_view(attribute_declarations(e2, i, s2).1),
    decreases e1.attributes@.len() - i,
{
    assert(model_of(e1).attributes.len() == e1.attributes@.len());
    assert(model_of(e2).attributes.len() == e2.attributes@.len());
    if 0 <= i < e1.attributes@.len() {
        let a1 = e1.attributes@[i];
        let a2 = e2.attributes@[i];
        assert(model_of(e1).attributes[i] == model_of(e2).attributes[i]);
        assert(attribute_model(a1) == attribute_model(a2));
        lemma_declare_view(s1, s2, a1.prefix, a1.namespace, a2.prefix, a2.namespace);
        let t1 = if a1.prefix@.len() == 0 { s1 } else { declare(s1, a1.prefix, a1.namespace).1 };
        let t2 = if a2.prefix@.len() == 0 { s2 } else { declare(s2, a2.prefix, a2.namespace).1 };
        lemma_attribute_declarations_view(e1, e2, i + 1, t1, t2);
    }
}

pub proof fn lemma_extra_declarations_view(e1: Element, e2: Element, i: int, s1: Seq<(String, String)>, s2: Seq<(String, String)>)
    requires
        model_of(e1) == model_of(e2),
        scope_view(s1) == scope_view(s2),
    ensures
        extra_declarations(e1, i, s1).0 == extra_declarations(e2, i, s2).0,
        scope_view(extra_declarations(e1, i, s1).1) == scope_view(extra_declarations(e2, i, s2).1),
    decreases e1.namespaces@.len() - i,
{
    assert(model_of(e1).namespaces.len() == e1.namespaces@.len());
    assert(model_of(e2).namespaces.len() == e2.namespaces@.len());
    if 0 <= i < e1.namespaces@.len() {
        assert(model_of(e1).namespaces[i] == model_of(e2).namespaces[i]);
        lemma_declare_view(s1, s2, e1.namespaces@[i].0, e1.namespaces@[i].1, e2.namespaces@[i].0, e2.namespaces@[i].1);
        lemma_extra_declarations_view(
            e1,
            e2,
            i + 1,
            declare(s1, e1.namespaces@[i].0, e1.namespaces@[i].1).1,
            declare(s2, e2.namespaces@[i].0, e2.namespaces@[i].1).1,
        );
    }
}

pub proof fn lemma_attributes_text_view(a1: Seq<Attribute>, a2: Seq<Attribute>)
    requires
        a1.map_values(|a: Attribute| attribute_model(a)) == a2.map_values(|a: Attribute| attribute_model(a)),
    ensures
        attributes_text(a1) == attributes_text(a2),
    decreases a1.len(),
{
    assert(a1.len() == a1.map_values(|a: Attribute| attribute_model(a)).len());
    assert(a2.len() == a2.map_values(|a: Attribute| attribute_model(a)).len());
    if a1.len() > 0 {
        assert(a1.drop_last().map_values(|a: Attribute| attribute_model(a)) =~= a1.map_values(|a: Attribute| attribute_model(a)).drop_last());
        assert(a2.drop_last().map_values(|a: Attribute| attribute_model(a)) =~= a2.map_values(|a: Attribute| attribute_model(a)).drop_last());
        lemma_attributes_text_view(a1.drop_last(), a2.drop_last());
        assert(a1.map_values(|a: Attribute| attribute_model(a))[a1.len() - 1] == a2.map_values(|a: Attribute| attribute_model(a))[a2.len() - 1]);
    }
}

/// The text of an element depends only on its model and on the characters
/// of the scope.
pub proof fn lemma_element_text_view(e1: Element, e2: Element, s1: Seq<(String, String)>, s2: Seq<(String, String)>)
    requires
        model_of(e1) == model_of(e2),
        scope_view(s1) == scope_view(s2),
    ensures
        element_text(e1, s1) == element_text(e2, s2),
    decreases e1, e1.children@.len() + 1,
{
    lemma_declare_view(s1, s2, e1.prefix, e1.namespace, e2.prefix, e2.namespace);
    let d1 = declare(s1, e1.prefix, e1.namespace);
    let d2 = declare(s2, e2.prefix, e2.namespace);
    lemma_extra_declarations_view(e1, e2, 0, d1.1, d2.1);
    let x1 = extra_declarations(e1, 0, d1.1);
    let x2 = extra_declarations(e2, 0, d2.1);
    lemma_attribute_declarations_view(e1, e2, 0, x1.1, x2.1);
    lemma_attributes_text_view(e1.attributes@, e2.attributes@);
    let inner1 = element_declarations(e1, s1).1;
    let inner2 = element_declarations(e2, s2).1;
    lemma_children_text_view(e1, e2, 0, inner1, inner2);
}

pub proof fn lemma_children_text_view(e1: Element, e2: Element, i: int, s1: Seq<(String, String)>, s2: Seq<(String, String)>)
    requires
        model_of(e1) == model_of(e2),
        scope_view(s1) == scope_view(s2),
    ensures
        children_text(e1, i, s1) == children_text(e2, i, s2),
    decreases e1, e1.children@.len() - i,
{
    assert(model_of(e1).children.len() == e1.children@.len());
    assert(model_of(e2).children.len() == e2.children@.len());
    if 0 <= i < e1.children@.len() {
        assert(model_of(e1).children[i] == model_of(e2).children[i]);
        assert(model_of(e1).children[i] == model_of(e1.children@[i]));
        assert(model_of(e2).children[i] == model_of(e2.children@[i]));
        lemma_element_text_view(e1.children@[i], e2.children@[i], s1, s2);
        lemma_children_text_view(e1, e2, i + 1, s1, s2);
    }
}

/// The text of the document whose root has this model.
pub open spec fn model_text(m: Model) -> Seq<char> {
    element_text(choose|e: Element| model_of(e) == m, Seq::empty())
}

/// The text of a root depends only on its model.
pub proof fn lemma_model_text(e: Element)
    ensures
        element_text(e, Seq::empty()) == model_text(model_of(e)),
{
    let c = choose|x: Element| model_of(x) == model_of(e);
    assert(scope_view(Seq::<(String, String)>::empty()) =~= scope_view(Seq::<(String, String)>::empty()));
    lemma_element_text_view(e, c, Seq::empty(), Seq::empty());
}

// ----------------------------------------------------------------------
// Reading
// ----------------------------------------------------------------------

/// A reading event, one for each event of `xml-rs`: the document's start
/// and end, a processing instruction (target, data), an element's start
/// (namespace, local name, and its attributes as namespace, local name and
/// value, a namespace being absent for names without one) and end, CDATA, a
/// comment, text, and whitespace-only text.
#[derive(Debug)]
pub enum Event {
    DocumentStart,
    DocumentEnd,
    Instruction(String, Option<String>),
    Start(Option<String>, String, Vec<(Option<String>, String, String)>),
    End,
    CData(String),
    Comment(String),
    Text(String),
    Whitespace(String),
}

/// The characters of an event.
pub enum EventView {
    DocumentStart,
    DocumentEnd,
    Instruction,
    Start(Seq<char>, Seq<char>, Seq<(Seq<char>, Seq<char>, Seq<char>)>),
    End,
    CData(Seq<char>),
    Comment(Seq<char>),
    Text(Seq<char>),
    Whitespace(Seq<char>),
}

/// The namespace of a name; empty when it has none.
pub open spec fn ns_view(o: Option<String>) -> Seq<char> {
    match o {
        Some(s) => s@,
        None => Seq::empty(),
    }
}

pub open spec fn attributes_view(a: Seq<(Option<String>, String, String)>) -> Seq<(Seq<char>, Seq<char>, Seq<char>)> {
    a.map_values(|t: (Option<String>, String, String)| (ns_view(t.0), t.1@, t.2@))
}

impl Event {
    pub open spec fn view(&self) -> EventView {
        match self {
            Event::DocumentStart => EventView::DocumentStart,
            Event::DocumentEnd => EventView::DocumentEnd,
            Event::Instruction(_, _) => EventView::Instruction,
            Event::Start(ns, name, attrs) => EventView::Start(ns_view(*ns), name@, attributes_view(attrs@)),
            Event::End => EventView::End,
            Event::CData(t) => EventView::CData(t@),
            Event::Comment(t) => EventView::Comment(t@),
            Event::Text(t) => EventView::Text(t@),
            Event::Whitespace(t) => EventView::Whitespace(t@),
        }
    }
}

pub open spec fn events_view(v: Seq<Event>) -> Seq<EventView> {
    v.map_values(|e: Event| e.view())
}

/// What `xml-rs` reads from a document: its events, or nothing when the text
/// is not well-formed.
pub uninterp spec fn xml_reading(text: Seq<char>) -> Option<Seq<EventView>>;

/// Relies on `xml::reader::EventReader` with its default configuration: it
/// resolves prefixes to namespaces, takes namespace declarations out of the
/// attributes, decodes entities, and stops at the first error. Each of its
/// events becomes one event here.
#[verifier::external_body]
fn read_events(text: &str) -> (r: Option<Vec<Event>>)
    ensures
        r matches Some(v) ==> xml_reading(text@) == Some(events_view(v@)),
        r is None ==> xml_reading(text@) is None,
{
    EventReader::new(text.as_bytes()).into_iter().map(|ev| Some(match ev.ok()? {
        XmlReaderEvent::StartDocument { .. } => Event::DocumentStart,
        XmlReaderEvent::EndDocument => Event::DocumentEnd,
        XmlReaderEvent::ProcessingInstruction { name, data } => Event::Instruction(name, data),
        XmlReaderEvent::StartElement { name, attributes, .. } => Event::Start(name.namespace, name.local_name,
            attributes.into_iter().map(|a| (a.name.namespace, a.name.local_name, a.value)).collect()),
        XmlReaderEvent::EndElement { .. } => Event::End,
        XmlReaderEvent::CData(t) => Event::CData(t),
        XmlReaderEvent::Comment(t) => Event::Comment(t),
        XmlReaderEvent::Characters(t) => Event::Text(t),
        XmlReaderEvent::Whitespace(t) => Event::Whitespace(t),
    })).collect()
}

/// What a reader can know of an element: names resolved to namespaces,
/// attributes as (namespace, name, value), the text, and the children.
pub struct Tree {
    pub namespace: Seq<char>,
    pub name: Seq<char>,
    pub attributes: Seq<(Seq<char>, Seq<char>, Seq<char>)>,
    pub text: Seq<char>,
    pub children: Seq<Tree>,
}

/// The tree of an element.
pub open spec fn tree_of(e: Element) -> Tree
    decreases e,
{
    Tree {
        namespace: e.namespace@,
        name: e.name@,
        attributes: e.attributes@.map_values(|a: Attribute| (a.namespace@, a.name@, a.value@)),
        text: e.text@,
        children: Seq::new(
            e.children@.len(),
            |i: int|
                if 0 <= i < e.children@.len() {
                    tree_of(e.children@[i])
                } else {
                    Tree {
                        namespace: Seq::empty(),
                        name: Seq::empty(),
                        attributes: Seq::empty(),
                        text: Seq::empty(),
                        children: Seq::empty(),
                    }
                },
        ),
    }
}

/// The characters of an optional string.
pub open spec fn opt_view(o: Option<String>) -> Option<Seq<char>> {
    match o {
        Some(s) => Some(s@),
        None => None,
    }
}

/// Elements with the same tree agree on all that a reader sees of them.
pub proof fn lemma_tree_parts(e1: Element, e2: Element)
    requires
        tree_of(e1) == tree_of(e2),
    ensures
        e1.namespace@ == e2.namespace@,
        e1.name@ == e2.name@,
        e1.text@ == e2.text@,
        e1.children@.len() == e2.children@.len(),
        forall|i: int| 0 <= i < e1.children@.len() ==> tree_of(#[trigger] e1.children@[i]) == tree_of(e2.children@[i]),
        e1.attributes@.len() == e2.attributes@.len(),
        forall|i: int| 0 <= i < e1.attributes@.len() ==> (#[trigger] e1.attributes@[i]).namespace@ == e2.attributes@[i].namespace@
            && e1.attributes@[i].name@ == e2.attributes@[i].name@ && e1.attributes@[i].value@ == e2.attributes@[i].value@,
{
    let t1 = tree_of(e1);
    let t2 = tree_of(e2);
    assert(t1.children.len() == e1.children@.len());
    assert(t2.children.len() == e2.children@.len());
    assert(t1.attributes.len() == e1.attributes@.len());
    assert(t2.attributes.len() == e2.attributes@.len());
    assert forall|i: int| 0 <= i < e1.children@.len() implies tree_of(#[trigger] e1.children@[i]) == tree_of(e2.children@[i]) by {
        assert(t1.children[i] == t2.children[i]);
    }
    assert forall|i: int| 0 <= i < e1.attributes@.len() implies (#[trigger] e1.attributes@[i]).namespace@ == e2.attributes@[i].namespace@
        && e1.attributes@[i].name@ == e2.attributes@[i].name@ && e1.attributes@[i].value@ == e2.attributes@[i].value@ by {
        assert(t1.attributes[i] == t2.attributes[i]);
        assert(t1.attributes[i] == (e1.attributes@[i].namespace@, e1.attributes@[i].name@, e1.attributes@[i].value@));
        assert(t2.attributes[i] == (e2.attributes@[i].namespace@, e2.attributes@[i].name@, e2.attributes@[i].value@));
    }
}

/// Sequences of elements with the same trees are found and kept alike.
pub proof fn lemma_find_same_trees(cs1: Seq<Element>, cs2: Seq<Element>, ns: Seq<char>, name: Seq<char>)
    requires
        cs1.len() == cs2.len(),
        forall|i: int| 0 <= i < cs1.len() ==> tree_of(#[trigger] cs1[i]) == tree_of(cs2[i]),
    ensures
        find_spec(cs1, ns, name) == find_spec(cs2, ns, name),
        filter_named(cs1, ns, name).len() == filter_named(cs2, ns, name).len(),
        forall|j: int| 0 <= j < filter_named(cs1, ns, name).len() ==> tree_of(#[trigger] filter_named(cs1, ns, name)[j])
            == tree_of(filter_named(cs2, ns, name)[j]),
    decreases cs1.len(),
{
    if cs1.len() > 0 {
        let (d1, d2) = (cs1.drop_last(), cs2.drop_last());
        assert forall|i: int| 0 <= i < d1.len() implies tree_of(#[trigger] d1[i]) == tree_of(d2[i]) by {
            assert(d1[i] == cs1[i] && d2[i] == cs2[i]);
        }
        lemma_find_same_trees(d1, d2, ns, name);
        assert(tree_of(cs1.last()) == tree_of(cs2.last()));
        let f1 = filter_named(d1, ns, name);
        let f2 = filter_named(d2, ns, name);
        if named(cs1.last(), ns, name) {
            assert forall|j: int| 0 <= j < f1.len() + 1 implies tree_of(#[trigger] f1.push(cs1.last())[j])
                == tree_of(f2.push(cs2.last())[j]) by {
                if j < f1.len() {
                    assert(f1.push(cs1.last())[j] == f1[j]);
                    assert(f2.push(cs2.last())[j] == f2[j]);
                }
            }
        }
    }
}

/// Elements with the same tree have children with the same trees under
/// every name.
pub proof fn lemma_same_tree_children(e1: Element, e2: Element, ns: Seq<char>)
    requires
        tree_of(e1) == tree_of(e2),
    ensures
        forall|n: Seq<char>|
            #![trigger child(e1, ns, n)]
            #![trigger child(e2, ns, n)]
            (child(e1, ns, n) is None <==> child(e2, ns, n) is None) && (child(e1, ns, n) is Some ==> tree_of(
                child(e1, ns, n)->0,
            ) == tree_of(child(e2, ns, n)->0)),
        forall|n: Seq<char>|
            #![trigger filter_named(e1.children@, ns, n)]
            #![trigger filter_named(e2.children@, ns, n)]
            filter_named(e1.children@, ns, n).len() == filter_named(e2.children@, ns, n).len() && forall|j: int|
                0 <= j < filter_named(e1.children@, ns, n).len() ==> tree_of(
                    #[trigger] filter_named(e1.children@, ns, n)[j],
                ) == tree_of(filter_named(e2.children@, ns, n)[j]),
{
    lemma_tree_parts(e1, e2);
    assert forall|n: Seq<char>|
        #![trigger child(e1, ns, n)]
        #![trigger child(e2, ns, n)]
        (child(e1, ns, n) is None <==> child(e2, ns, n) is None) && (child(e1, ns, n) is Some ==> tree_of(
            child(e1, ns, n)->0,
        ) == tree_of(child(e2, ns, n)->0)) by {
        lemma_find_same_trees(e1.children@, e2.children@, ns, n);
        lemma_find_spec(e1.children@, ns, n);
    }
    assert forall|n: Seq<char>|
        #![trigger filter_named(e1.children@, ns, n)]
        #![trigger filter_named(e2.children@, ns, n)]
        filter_named(e1.children@, ns, n).len() == filter_named(e2.children@, ns, n).len() && forall|j: int|
            0 <= j < filter_named(e1.children@, ns, n).len() ==> tree_of(
                #[trigger] filter_named(e1.children@, ns, n)[j],
            ) == tree_of(filter_named(e2.children@, ns, n)[j]) by {
        lemma_find_same_trees(e1.children@, e2.children@, ns, n);
    }
}

/// The first of `ts` with this namespace and local name.
pub open spec fn tree_find(ts: Seq<Tree>, ns: Seq<char>, name: Seq<char>) -> Option<Tree>
    decreases ts.len(),
{
    if ts.len() == 0 {
        None
    } else {
        match tree_find(ts.drop_last(), ns, name) {
            Some(t) => Some(t),
            None => if ts.last().namespace == ns && ts.last().name == name {
                Some(ts.last())
            } else {
                None
            },
        }
    }
}

/// The first child of a tree with this name.
pub open spec fn tree_child(t: Tree, ns: Seq<char>, name: Seq<char>) -> Option<Tree> {
    tree_find(t.children, ns, name)
}

/// Finding among trees finds the tree of the element found.
pub proof fn lemma_tree_find(cs: Seq<Element>, ts: Seq<Tree>, ns: Seq<char>, name: Seq<char>)
    requires
        cs.len() == ts.len(),
        forall|i: int| 0 <= i < cs.len() ==> #[trigger] ts[i] == tree_of(cs[i]),
    ensures
        match find_spec(cs, ns, name) {
            Some(i) => tree_find(ts, ns, name) == Some(tree_of(cs[i])),
            None => tree_find(ts, ns, name) is None,
        },
    decreases cs.len(),
{
    if cs.len() > 0 {
        let (d1, d2) = (cs.drop_last(), ts.drop_last());
        assert forall|i: int| 0 <= i < d1.len() implies #[trigger] d2[i] == tree_of(d1[i]) by {
            assert(d1[i] == cs[i] && d2[i] == ts[i]);
        }
        lemma_tree_find(d1, d2, ns, name);
        lemma_find_spec(d1, ns, name);
        assert(ts.last() == tree_of(cs.last()));
        if let Some(i) = find_spec(d1, ns, name) {
            assert(d1[i] == cs[i]);
        }
    }
}

/// The child found in an element is, as a tree, the child found in its tree.
pub proof fn lemma_tree_child(e: Element, ns: Seq<char>, name: Seq<char>)
    ensures
        match child(e, ns, name) {
            Some(c) => tree_child(tree_of(e), ns, name) == Some(tree_of(c)),
            None => tree_child(tree_of(e), ns, name) is None,
        },
{
    let t = tree_of(e);
    assert forall|i: int| 0 <= i < e.children@.len() implies #[trigger] t.children[i] == tree_of(e.children@[i]) by {}
    lemma_tree_find(e.children@, t.children, ns, name);
}

/// The element that starts at event `pos`, and the position after its end:
/// a start with the attributes, then text (plain, CDATA or whitespace) and
/// child elements in any order, then an end. The pieces of text are joined,
/// whitespace included; comments, processing instructions and document
/// markers inside carry nothing and are passed over.
pub open spec fn parse_element(ev: Seq<EventView>, pos: int) -> Option<(Tree, int)>
    decreases ev.len() - pos, 1int,
{
    if 0 <= pos < ev.len() {
        match ev[pos] {
            EventView::Start(ns, name, attrs) => parse_content(
                ev,
                pos + 1,
                Tree { namespace: ns, name, attributes: attrs, text: Seq::empty(), children: Seq::empty() },
            ),
            _ => None,
        }
    } else {
        None
    }
}

/// The rest of an element from event `p` on, `acc` holding what came before.
pub open spec fn parse_content(ev: Seq<EventView>, p: int, acc: Tree) -> Option<(Tree, int)>
    decreases ev.len() - p, 2int,
{
    if 0 <= p < ev.len() {
        match ev[p] {
            EventView::Text(t) => parse_content(ev, p + 1, Tree { text: acc.text + t, ..acc }),
            EventView::CData(t) => parse_content(ev, p + 1, Tree { text: acc.text + t, ..acc }),
            EventView::Whitespace(t) => parse_content(ev, p + 1, Tree { text: acc.text + t, ..acc }),
            EventView::End => Some((acc, p + 1)),
            EventView::Start(_, _, _) => match parse_element(ev, p) {
                Some((c, q)) => if p < q <= ev.len() {
                    parse_content(ev, q, Tree { children: acc.children.push(c), ..acc })
                } else {
                    None
                },
                None => None,
            },
            _ => parse_content(ev, p + 1, acc),
        }
    } else {
        None
    }
}

/// The namespace of a name as a string; empty when it has none.
fn namespace_string(o: &Option<String>) -> (r: String)
    ensures
        r@ == ns_view(*o),
{
    match o {
        Some(s) => s.clone(),
        None => String::new(),
    }
}

/// Builds the element that starts at event `pos`, as `parse_element` reads it.
pub fn build_element(events: &Vec<Event>, pos: usize) -> (r: Result<(Element, usize), DecodeError>)
    requires
        pos < events.len(),
    ensures
        r matches Ok((e, end)) ==> pos < end <= events.len() && parse_element(events_view(events@), pos as int)
            == Some((tree_of(e), end as int)),
        r is Err ==> parse_element(events_view(events@), pos as int) is None,
        r matches Err(x) ==> x is Malformed,
    decreases events.len() - pos,
{
    let ghost ev = events_view(events@);
    let mut e = match &events[pos] {
        Event::Start(ns, name, attrs) => {
            let mut attributes: Vec<Attribute> = Vec::new();
            let mut k: usize = 0;
            while k < attrs.len()
                invariant
                    k <= attrs.len(),
                    attributes@.len() == k,
                    forall|j: int| 0 <= j < k ==> (#[trigger] attributes@[j]).namespace@ == ns_view(attrs@[j].0)
                        && attributes@[j].name@ == attrs@[j].1@ && attributes@[j].value@ == attrs@[j].2@,
                decreases attrs.len() - k,
            {
                attributes.push(Attribute {
                    prefix: String::new(),
                    namespace: namespace_string(&attrs[k].0),
                    name: attrs[k].1.clone(),
                    value: attrs[k].2.clone(),
                });
                k = k + 1;
            }
            Element {
                prefix: String::new(),
                namespace: namespace_string(ns),
                name: name.clone(),
                attributes,
                namespaces: Vec::new(),
                text: String::new(),
                children: Vec::new(),
            }
        },
        _ => {
            return Err(DecodeError::Malformed(String::from_str("an element was expected")));
        },
    };
    assert(tree_of(e).children =~= Seq::<Tree>::empty());
    assert(tree_of(e).attributes =~= ev[pos as int]->Start_2);
    let mut p: usize = pos + 1;
    while p < events.len()
        invariant
            pos < p <= events.len(),
            ev == events_view(events@),
            parse_content(ev, p as int, tree_of(e)) == parse_element(ev, pos as int),
        decreases events.len() - p,
    {
        let ghost before = tree_of(e);
        match &events[p] {
            Event::Text(t) | Event::CData(t) | Event::Whitespace(t) => {
                e.text.append(t.as_str());
                assert(tree_of(e).attributes =~= before.attributes);
                assert(tree_of(e).children =~= before.children);
                p = p + 1;
            },
            Event::Start(_, _, _) => {
                let (child, end) = build_element(events, p)?;
                let ghost ct = tree_of(child);
                e.children.push(child);
                assert(tree_of(e).attributes =~= before.attributes);
                assert(tree_of(e).children =~= before.children.push(ct));
                p = end;
            },
            Event::End => {
                return Ok((e, p + 1));
            },
            _ => {
                p = p + 1;
            },
        }
    }
    Err(DecodeError::Malformed(String::from_str("an element is not closed")))
}

/// The index of the first start event at or after `from`.
pub open spec fn first_start(ev: Seq<EventView>, from: int) -> Option<int>
    decreases ev.len() - from,
{
    if 0 <= from < ev.len() {
        if ev[from] is Start {
            Some(from)
        } else {
            first_start(ev, from + 1)
        }
    } else {
        None
    }
}

/// The root element of a document's events: the element that the first start
/// event begins.
pub open spec fn document_tree(ev: Seq<EventView>) -> Option<Tree> {
    match first_start(ev, 0) {
        Some(k) => match parse_element(ev, k) {
            Some((t, _)) => Some(t),
            None => None,
        },
        None => None,
    }
}

/// The root of a document as `xml-rs` reads it, if the document has one.
pub open spec fn document_root(text: Seq<char>) -> Option<Tree> {
    match xml_reading(text) {
        Some(ev) => document_tree(ev),
        None => None,
    }
}

/// Reads a document into its root element.
pub fn read_document(text: &str) -> (r: Result<Element, DecodeError>)
    ensures
        r is Ok <==> document_root(text@) is Some,
        r matches Ok(root) ==> document_root(text@) == Some(tree_of(root)),
        r matches Err(x) ==> x is Malformed,
{
    let events = match read_events(text) {
        Some(v) => v,
        None => {
            return Err(DecodeError::Malformed(String::from_str(text)));
        },
    };
    let ghost ev = events_view(events@);
    let mut p: usize = 0;
    while p < events.len()
        invariant
            p <= events.len(),
            ev == events_view(events@),
            xml_reading(text@) == Some(ev),
            first_start(ev, 0) == first_start(ev, p as int),
        decreases events.len() - p,
    {
        if let Event::Start(_, _, _) = &events[p] {
            return match build_element(&events, p) {
                Ok((root, _end)) => Ok(root),
                Err(x) => Err(x),
            };
        }
        p = p + 1;
    }
    Err(DecodeError::Malformed(String::from_str("the document has no element")))
}

} // verus!
