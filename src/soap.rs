//! The SOAP 1.2 envelope around every message, and the SOAP fault.

use vstd::prelude::*;
use crate::markup::{
    Model, model_of, bare_model, leaf_model, with_child, with_children, model_text, lemma_model_text, scope_view,
    Element, Attribute, DecodeError, bare, leaf, child_text, has_name, child, push_child, required_child, str_eq,
    element_text, write_document, read_document, XML_DECLARATION, document_root, tree_of, opt_view, lemma_tree_parts, lemma_same_tree_children,
};
use crate::schema::{XmlMessage, XmlModel, optional_text_field};
use crate::mde_v2::ADDRESSING_NS;

verus! {

broadcast use crate::markup::lemma_find_push;

/// The SOAP 1.2 envelope namespace.
pub const SOAP_NS: &'static str = "http://www.w3.org/2003/05/soap-envelope";

/// The header of a message that carries none.
#[derive(Debug, Default)]
pub struct DefaultHeader {}

impl XmlMessage for DefaultHeader {
    open spec fn wf(&self) -> bool {
        true
    }

    proof fn lemma_encodes_tree(&self, e1: Element, e2: Element) {
        lemma_tree_parts(e1, e2);
    }

    open spec fn encodes(&self, e: Element) -> bool {
        e.children@.len() == 0
    }

    open spec fn decodes(e: Element, v: Self) -> bool {
        true
    }

    open spec fn same(&self, other: &Self) -> bool {
        true
    }

    fn to_element(&self, prefix: &str, ns: &str, name: &str) -> (r: Element) {
        self.build(prefix, ns, name)
    }

    fn from_element(e: &Element) -> (r: Result<Self, DecodeError>) {
        Ok(DefaultHeader {})
    }
}

impl XmlModel for DefaultHeader {
    open spec fn model(&self, prefix: Seq<char>, ns: Seq<char>, name: Seq<char>) -> Model {
        bare_model(prefix, ns, name)
    }

    fn build(&self, prefix: &str, ns: &str, name: &str) -> (r: Element) {
        bare(prefix, ns, name)
    }
}

/// The value of the first attribute `ns:name` among `attrs`.
pub open spec fn attribute_value(attrs: Seq<Attribute>, ns: Seq<char>, name: Seq<char>) -> Option<String>
    decreases attrs.len(),
{
    if attrs.len() == 0 {
        None
    } else {
        match attribute_value(attrs.drop_last(), ns, name) {
            Some(v) => Some(v),
            None => if attrs.last().namespace@ == ns && attrs.last().name@ == name {
                Some(attrs.last().value)
            } else {
                None
            },
        }
    }
}

/// The value of the first attribute `ns:name` of `e`.
pub fn find_attribute(e: &Element, ns: &str, name: &str) -> (r: Option<String>)
    ensures
        r == attribute_value(e.attributes@, ns@, name@),
{
    let mut i: usize = 0;
    while i < e.attributes.len()
        invariant
            i <= e.attributes.len(),
            attribute_value(e.attributes@.subrange(0, i as int), ns@, name@) is None,
        decreases e.attributes.len() - i,
    {
        let a = &e.attributes[i];
        assert(e.attributes@.subrange(0, i + 1).drop_last() =~= e.attributes@.subrange(0, i as int));
        if str_eq(a.namespace.as_str(), ns) && str_eq(a.name.as_str(), name) {
            proof {
                lemma_attribute_value_prefix(e.attributes@, ns@, name@, i + 1);
            }
            return Some(a.value.clone());
        }
        i = i + 1;
    }
    assert(e.attributes@.subrange(0, i as int) =~= e.attributes@);
    None
}

/// Attributes with the same characters give values with the same characters.
pub proof fn lemma_attribute_seq(a1: Seq<Attribute>, a2: Seq<Attribute>, ns: Seq<char>, name: Seq<char>)
    requires
        a1.len() == a2.len(),
        forall|i: int| 0 <= i < a1.len() ==> (#[trigger] a1[i]).namespace@ == a2[i].namespace@
            && a1[i].name@ == a2[i].name@ && a1[i].value@ == a2[i].value@,
    ensures
        opt_view(attribute_value(a1, ns, name)) == opt_view(attribute_value(a2, ns, name)),
    decreases a1.len(),
{
    if a1.len() > 0 {
        let (d1, d2) = (a1.drop_last(), a2.drop_last());
        assert forall|i: int| 0 <= i < d1.len() implies (#[trigger] d1[i]).namespace@ == d2[i].namespace@
            && d1[i].name@ == d2[i].name@ && d1[i].value@ == d2[i].value@ by {
            assert(d1[i] == a1[i] && d2[i] == a2[i]);
        }
        lemma_attribute_seq(d1, d2, ns, name);
        assert(a1.last() == a1[a1.len() - 1]);
        assert(a2.last() == a2[a2.len() - 1]);
    }
}

/// Elements with the same tree have attributes with the same values.
pub proof fn lemma_attribute_tree(e1: Element, e2: Element, ns: Seq<char>, name: Seq<char>)
    requires
        tree_of(e1) == tree_of(e2),
    ensures
        opt_view(attribute_value(e1.attributes@, ns, name)) == opt_view(attribute_value(e2.attributes@, ns, name)),
{
    lemma_tree_parts(e1, e2);
    lemma_attribute_seq(e1.attributes@, e2.attributes@, ns, name);
}

/// Once found in a prefix, the first attribute stays the one found.
pub proof fn lemma_attribute_value_prefix(attrs: Seq<Attribute>, ns: Seq<char>, name: Seq<char>, k: int)
    requires
        0 <= k <= attrs.len(),
        attribute_value(attrs.subrange(0, k), ns, name) is Some,
    ensures
        attribute_value(attrs, ns, name) == attribute_value(attrs.subrange(0, k), ns, name),
    decreases attrs.len() - k,
{
    if k < attrs.len() {
        assert(attrs.subrange(0, k + 1).drop_last() =~= attrs.subrange(0, k));
        lemma_attribute_value_prefix(attrs, ns, name, k + 1);
    } else {
        assert(attrs.subrange(0, k) =~= attrs);
    }
}

/// A message: an optional encoding style, a header and a body, written
/// header first under one `Envelope` root.
#[derive(Debug)]
pub struct SoapEnvelope<B, H = DefaultHeader> {
    pub encoding_style: Option<String>,
    pub header: H,
    pub body: B,
}

impl<B: XmlModel, H: XmlModel> XmlMessage for SoapEnvelope<B, H> {
    open spec fn wf(&self) -> bool {
        self.header.wf() && self.body.wf()
    }

    open spec fn encodes(&self, e: Element) -> bool {
        &&& opt_view(attribute_value(e.attributes@, SOAP_NS@, "encodingStyle"@)) == opt_view(self.encoding_style)
        &&& child(e, SOAP_NS@, "Header"@) matches Some(c) && self.header.encodes(c)
        &&& child(e, SOAP_NS@, "Body"@) matches Some(c) && self.body.encodes(c)
    }

    open spec fn decodes(e: Element, v: Self) -> bool {
        &&& opt_view(attribute_value(e.attributes@, SOAP_NS@, "encodingStyle"@)) == opt_view(v.encoding_style)
        &&& child(e, SOAP_NS@, "Header"@) matches Some(c) && H::decodes(c, v.header)
        &&& child(e, SOAP_NS@, "Body"@) matches Some(c) && B::decodes(c, v.body)
    }

    open spec fn same(&self, other: &Self) -> bool {
        &&& opt_view(self.encoding_style) == opt_view(other.encoding_style)
        &&& self.header.same(&other.header)
        &&& self.body.same(&other.body)
    }

    proof fn lemma_encodes_tree(&self, e1: Element, e2: Element) {
        lemma_tree_parts(e1, e2);
        lemma_attribute_tree(e1, e2, SOAP_NS@, "encodingStyle"@);
        lemma_same_tree_children(e1, e2, SOAP_NS@);
        self.header.lemma_encodes_tree(child(e1, SOAP_NS@, "Header"@)->0, child(e2, SOAP_NS@, "Header"@)->0);
        self.body.lemma_encodes_tree(child(e1, SOAP_NS@, "Body"@)->0, child(e2, SOAP_NS@, "Body"@)->0);
    }

    fn to_element(&self, prefix: &str, ns: &str, name: &str) -> (r: Element) {
        self.build(prefix, ns, name)
    }

    fn from_element(e: &Element) -> (r: Result<Self, DecodeError>) {
        let encoding_style = find_attribute(e, SOAP_NS, "encodingStyle");
        let hc = required_child(e, SOAP_NS, "Header")?;
        let header = H::from_element(hc)?;
        let bc = required_child(e, SOAP_NS, "Body")?;
        let body = B::from_element(bc)?;
        Ok(SoapEnvelope { encoding_style, header, body })
    }
}

impl<B: XmlModel, H: XmlModel> XmlModel for SoapEnvelope<B, H> {
    open spec fn model(&self, prefix: Seq<char>, ns: Seq<char>, name: Seq<char>) -> Model {
        Model {
            attributes: match self.encoding_style {
                Some(style) => seq![("s"@, SOAP_NS@, "encodingStyle"@, style@)],
                None => Seq::empty(),
            },
            ..with_children(
                bare_model(prefix, ns, name),
                seq![self.header.model("s"@, SOAP_NS@, "Header"@), self.body.model("s"@, SOAP_NS@, "Body"@)],
            )
        }
    }

    fn build(&self, prefix: &str, ns: &str, name: &str) -> (r: Element) {
        proof {
            reveal_strlit("Header");
            reveal_strlit("Body");
            assert("Header"@.len() == 6);
            assert("Body"@.len() == 4);
        }
        let mut e = bare(prefix, ns, name);
        if let Some(style) = &self.encoding_style {
            e.attributes.push(
                Attribute {
                    prefix: String::from_str("s"),
                    namespace: String::from_str(SOAP_NS),
                    name: String::from_str("encodingStyle"),
                    value: style.clone(),
                },
            );
            assert(e.attributes@.drop_last() =~= Seq::<Attribute>::empty());
            assert(attribute_value(e.attributes@.drop_last(), SOAP_NS@, "encodingStyle"@) is None);
            proof {
                reveal_strlit("s");
                reveal_strlit("encodingStyle");
            }
            assert(model_of(e).attributes =~= seq![("s"@, SOAP_NS@, "encodingStyle"@, style@)]);
        }
        assert(model_of(e).attributes =~= self.model(prefix@, ns@, name@).attributes);
        assert(model_of(e).children =~= Seq::<Model>::empty());
        assert(model_of(e).namespaces =~= Seq::<(Seq<char>, Seq<char>)>::empty());
        assert(attribute_value(e.attributes@, SOAP_NS@, "encodingStyle"@) == self.encoding_style);
        push_child(&mut e, self.header.build("s", SOAP_NS, "Header"));
        push_child(&mut e, self.body.build("s", SOAP_NS, "Body"));
        assert(model_of(e).children =~= self.model(prefix@, ns@, name@).children);
        e
    }
}

impl<B: XmlModel, H: XmlModel> SoapEnvelope<B, H> {
    /// The document of this message: the XML declaration and the
    /// `s:Envelope` root that holds it.
    /// The root of this message's document: `s:Envelope` binding the SOAP
    /// (`s`) and addressing (`a`) prefixes.
    pub open spec fn root_model(&self) -> Model {
        Model {
            namespaces: seq![("s"@, SOAP_NS@), ("a"@, ADDRESSING_NS@)],
            ..self.model("s"@, SOAP_NS@, "Envelope"@)
        }
    }

    /// The document of this message: the XML declaration, then the root
    /// `s:Envelope`, which binds the SOAP (`s`) and addressing (`a`) prefixes.
    pub fn to_xml(&self) -> (r: String)
        requires
            self.wf(),
        ensures
            r@ == XML_DECLARATION@ + model_text(self.root_model()),
            exists|e: Element|
                has_name(e, "s"@, SOAP_NS@, "Envelope"@) && root_declarations(e) && #[trigger] self.encodes(e)
                    && r@ == XML_DECLARATION@ + element_text(e, Seq::empty()),
    {
        let mut e = self.build("s", SOAP_NS, "Envelope");
        e.namespaces = vec![
            (String::from_str("s"), String::from_str(SOAP_NS)),
            (String::from_str("a"), String::from_str(ADDRESSING_NS)),
        ];
        proof {
            reveal_strlit("s");
            reveal_strlit("a");
            assert(self.encodes(e));
            assert(model_of(e).namespaces =~= seq![("s"@, SOAP_NS@), ("a"@, ADDRESSING_NS@)]);
            assert(model_of(e).children =~= self.root_model().children);
            assert(model_of(e).attributes =~= self.root_model().attributes);
            lemma_model_text(e);
        }
        write_document(&e)
    }

    /// Reads a message from a document whose root is `s:Envelope`.
    pub fn from_xml(text: &str) -> (r: Result<Self, DecodeError>)
        ensures
            document_root(text@) is None ==> (r matches Err(x) && x is Malformed),
            document_root(text@) matches Some(t) && !(t.namespace == SOAP_NS@ && t.name == "Envelope"@)
                ==> (r matches Err(x) && x is WrongElement),
            r matches Ok(v) ==> exists|e: Element|
                document_root(text@) == Some(tree_of(e)) && e.namespace@ == SOAP_NS@ && e.name@
                    == "Envelope"@ && #[trigger] Self::decodes(e, v),
            forall|e: Element, v: Self|
                v.wf() && #[trigger] v.encodes(e) && e.namespace@ == SOAP_NS@ && e.name@ == "Envelope"@
                    && document_root(text@) == Some(tree_of(e)) ==> (r matches Ok(w) && w.same(&v)),
    {
        let root = read_document(text)?;
        if !(str_eq(root.namespace.as_str(), SOAP_NS) && str_eq(root.name.as_str(), "Envelope")) {
            return Err(DecodeError::WrongElement(root.name));
        }
        proof {
            assert forall|e: Element, v: Self|
                v.wf() && #[trigger] v.encodes(e) && e.namespace@ == SOAP_NS@ && e.name@ == "Envelope"@
                    && document_root(text@) == Some(tree_of(e)) implies v.encodes(root) by {
                v.lemma_encodes_tree(e, root);
            }
        }
        Self::from_element(&root)
    }
}

/// The bindings an envelope root makes: `s` for SOAP, then `a` for addressing.
pub open spec fn root_declarations(e: Element) -> bool {
    &&& e.namespaces@.len() == 2
    &&& e.namespaces@[0].0@ == "s"@
    &&& e.namespaces@[0].1@ == SOAP_NS@
    &&& e.namespaces@[1].0@ == "a"@
    &&& e.namespaces@[1].1@ == ADDRESSING_NS@
}

/// A SOAP fault: an optional code and an optional message.
#[derive(Debug, Default)]
pub struct SoapFault {
    pub fault_code: Option<String>,
    pub fault_string: Option<String>,
}

impl SoapFault {
    /// `code: message` when both are there, either alone, or nothing.
    pub open spec fn text_spec(&self) -> Seq<char> {
        match (self.fault_code, self.fault_string) {
            (Some(c), Some(m)) => c@ + seq![':', ' '] + m@,
            (Some(c), None) => c@,
            (None, Some(m)) => m@,
            (None, None) => Seq::empty(),
        }
    }

    /// The display text of the fault.
    pub fn to_string(&self) -> (r: String)
        ensures
            r@ == self.text_spec(),
    {
        match (&self.fault_code, &self.fault_string) {
            (None, None) => String::new(),
            (None, Some(m)) => m.clone(),
            (Some(c), None) => c.clone(),
            (Some(c), Some(m)) => {
                let mut out = c.clone();
                out.append(": ");
                proof {
                    reveal_strlit(": ");
                }
                out.append(m.as_str());
                assert(out@ =~= c@ + seq![':', ' '] + m@);
                out
            },
        }
    }
}

impl XmlMessage for SoapFault {
    open spec fn wf(&self) -> bool {
        true
    }

    open spec fn encodes(&self, e: Element) -> bool {
        &&& optional_text_field(e, Seq::empty(), "faultcode"@, self.fault_code)
        &&& optional_text_field(e, Seq::empty(), "faultstring"@, self.fault_string)
    }

    open spec fn decodes(e: Element, v: Self) -> bool {
        v.encodes(e)
    }

    open spec fn same(&self, other: &Self) -> bool {
        &&& opt_view(self.fault_code) == opt_view(other.fault_code)
        &&& opt_view(self.fault_string) == opt_view(other.fault_string)
    }

    proof fn lemma_encodes_tree(&self, e1: Element, e2: Element) {
        lemma_same_tree_children(e1, e2, Seq::empty());
    }

    fn to_element(&self, prefix: &str, ns: &str, name: &str) -> (r: Element) {
        self.build(prefix, ns, name)
    }

    fn from_element(e: &Element) -> (r: Result<Self, DecodeError>) {
        proof {
            reveal_strlit("");
            assert(""@ =~= Seq::<char>::empty());
        }
        let fault_code = child_text(e, "", "faultcode");
        let fault_string = child_text(e, "", "faultstring");
        Ok(SoapFault { fault_code, fault_string })
    }
}

impl XmlModel for SoapFault {
    open spec fn model(&self, prefix: Seq<char>, ns: Seq<char>, name: Seq<char>) -> Model {
        with_children(
            bare_model(prefix, ns, name),
            match self.fault_code {
                Some(c) => seq![leaf_model(Seq::empty(), Seq::empty(), "faultcode"@, c@)],
                None => Seq::empty(),
            } + match self.fault_string {
                Some(m) => seq![leaf_model(Seq::empty(), Seq::empty(), "faultstring"@, m@)],
                None => Seq::empty(),
            },
        )
    }

    fn build(&self, prefix: &str, ns: &str, name: &str) -> (r: Element) {
        proof {
            reveal_strlit("");
            reveal_strlit("faultcode");
            reveal_strlit("faultstring");
            assert("faultcode"@.len() == 9);
            assert("faultstring"@.len() == 11);
            assert(""@ =~= Seq::<char>::empty());
        }
        let mut e = bare(prefix, ns, name);
        if let Some(c) = &self.fault_code {
            push_child(&mut e, leaf("", "", "faultcode", c.clone()));
        }
        if let Some(m) = &self.fault_string {
            push_child(&mut e, leaf("", "", "faultstring", m.clone()));
        }
        assert(model_of(e).children =~= self.model(prefix@, ns@, name@).children);
        e
    }
}

} // verus!
