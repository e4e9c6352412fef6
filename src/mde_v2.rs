//! The discovery exchange (MS-MDE2): the client asks which enrollment
//! services the server offers, and the server answers with their addresses.

use vstd::prelude::*;
use crate::markup::{Model, model_of, bare_model, leaf_model, with_child, with_children, Element, DecodeError, tree_of, opt_view, lemma_tree_parts, lemma_same_tree_children, bare, leaf, bare_spec, child, push_child, required_child, str_eq, named, filter_named, lemma_filter_all_named};
use crate::schema::{XmlMessage, XmlModel, text_field, optional_text_field, decimal_written, decimal_read, unsigned_written, unsigned_read, read_decimal, read_optional_decimal, read_unsigned_field};
use crate::text::{u64_string, nat_text};
use crate::markup::{child_text, required_text};
use crate::decimal::Decimal;

verus! {

broadcast use crate::markup::lemma_find_push;

/// The enrollment namespace.
pub const ENROLL_NS: &'static str = "http://schemas.microsoft.com/windows/management/2012/01/enrollment";

/// The WS-Addressing namespace.
pub const ADDRESSING_NS: &'static str = "http://www.w3.org/2005/08/addressing";

// ----------------------------------------------------------------------
// Open enumerations
// ----------------------------------------------------------------------

/// How a device authenticates when it enrolls. A value the server does not
/// know is kept as it was written.
#[derive(Debug)]
pub enum AuthPolicyType {
    Certificate,
    Federated,
    OnPremise,
    Unknown(String),
}

impl AuthPolicyType {
    /// The text of the value on the wire.
    pub open spec fn wire(&self) -> Seq<char> {
        match self {
            AuthPolicyType::Certificate => "Certificate"@,
            AuthPolicyType::Federated => "Federated"@,
            AuthPolicyType::OnPremise => "OnPremise"@,
            AuthPolicyType::Unknown(s) => s@,
        }
    }

    pub open spec fn is_known(t: Seq<char>) -> bool {
        t == "Certificate"@ || t == "Federated"@ || t == "OnPremise"@
    }

    /// An unknown value does not hold the text of a known one.
    pub open spec fn wf(&self) -> bool {
        self matches AuthPolicyType::Unknown(s) ==> !Self::is_known(s@)
    }

    /// `t` is the text written for this value.
    pub open spec fn written_as(&self, t: String) -> bool {
        match self {
            AuthPolicyType::Unknown(s) => t@ == s@,
            _ => t@ == self.wire(),
        }
    }

    /// Reading `t` gives `v`: the known value with that text, else `t`
    /// itself as an unknown value.
    pub open spec fn read_as(t: String, v: Self) -> bool {
        match v {
            AuthPolicyType::Unknown(s) => s@ == t@ && !Self::is_known(t@),
            _ => t@ == v.wire(),
        }
    }

    /// The text of this value on the wire.
    pub fn to_wire(&self) -> (r: String)
        ensures
            self.written_as(r),
            r@ == self.wire(),
    {
        match self {
            AuthPolicyType::Certificate => String::from_str("Certificate"),
            AuthPolicyType::Federated => String::from_str("Federated"),
            AuthPolicyType::OnPremise => String::from_str("OnPremise"),
            AuthPolicyType::Unknown(s) => s.clone(),
        }
    }

    /// The value a wire text stands for; any other text is kept verbatim.
    pub fn from_wire(t: &String) -> (r: AuthPolicyType)
        ensures
            Self::read_as(*t, r),
            r.wf(),
    {
        if str_eq(t.as_str(), "Certificate") {
            AuthPolicyType::Certificate
        } else if str_eq(t.as_str(), "Federated") {
            AuthPolicyType::Federated
        } else if str_eq(t.as_str(), "OnPremise") {
            AuthPolicyType::OnPremise
        } else {
            AuthPolicyType::Unknown(t.clone())
        }
    }

    /// The value with that text, known or not.
    pub fn from_str(t: &str) -> (r: AuthPolicyType)
        ensures
            r.wire() == t@,
            r.wf(),
            (r is Unknown) == !Self::is_known(t@),
    {
        let s = String::from_str(t);
        proof {
            reveal_strlit("Certificate");
            reveal_strlit("Federated");
            reveal_strlit("OnPremise");
            assert("Federated"@[0] != "OnPremise"@[0]);
        }
        Self::from_wire(&s)
    }
}

impl Default for AuthPolicyType {
    fn default() -> (r: AuthPolicyType)
        ensures
            r matches AuthPolicyType::Unknown(s) && s@ == "No valid variants"@,
    {
        AuthPolicyType::Unknown(String::from_str("No valid variants"))
    }
}

/// A text written for a value reads back as no other value.
pub proof fn lemma_auth_policy_read_back(v: AuthPolicyType, w: AuthPolicyType, t: String)
    requires
        v.wf(),
        v.written_as(t),
        AuthPolicyType::read_as(t, w),
    ensures
        w.wire() == v.wire(),
{
    reveal_strlit("Certificate");
    reveal_strlit("Federated");
    reveal_strlit("OnPremise");
    assert("Certificate"@.len() == 11);
    assert("Federated"@.len() == 9);
    assert("OnPremise"@.len() == 9);
    assert("Federated"@[0] != "OnPremise"@[0]);
}

/// Whatever is written for a value reads back as that value; an unknown
/// value comes back with exactly the text it held.
pub proof fn law_auth_policy_wire_round_trip(v: AuthPolicyType, t: String)
    requires
        v.wf(),
        v.written_as(t),
    ensures
        AuthPolicyType::read_as(t, v),
        t@ == v.wire(),
{
}

impl XmlMessage for AuthPolicyType {
    open spec fn wf(&self) -> bool {
        AuthPolicyType::wf(self)
    }

    open spec fn encodes(&self, e: Element) -> bool {
        self.written_as(e.text)
    }

    open spec fn decodes(e: Element, v: Self) -> bool {
        AuthPolicyType::read_as(e.text, v)
    }

    open spec fn same(&self, other: &Self) -> bool {
        self.wire() == other.wire()
    }

    proof fn lemma_encodes_tree(&self, e1: Element, e2: Element) {
        lemma_tree_parts(e1, e2);
    }

    fn to_element(&self, prefix: &str, ns: &str, name: &str) -> (r: Element) {
        self.build(prefix, ns, name)
    }

    fn from_element(e: &Element) -> (r: Result<Self, DecodeError>) {
        proof {
            reveal_strlit("Certificate");
            reveal_strlit("Federated");
            reveal_strlit("OnPremise");
            assert("Federated"@[0] != "OnPremise"@[0]);
        }
        let r = AuthPolicyType::from_wire(&e.text);
        proof {
            assert forall|v: Self| XmlMessage::wf(&v) && #[trigger] v.encodes(*e) implies r.same(&v) by {
                assert(AuthPolicyType::wf(&v));
                assert(v.written_as(e.text));
                assert(AuthPolicyType::read_as(e.text, r));
                match v {
                    AuthPolicyType::Unknown(s) => {
                        assert(s@ == e.text@);
                    },
                    _ => {
                        assert(e.text@ == v.wire());
                    },
                }
            }
        }
        Ok(r)
    }
}

impl XmlModel for AuthPolicyType {
    open spec fn model(&self, prefix: Seq<char>, ns: Seq<char>, name: Seq<char>) -> Model {
        leaf_model(prefix, ns, name, self.wire())
    }

    fn build(&self, prefix: &str, ns: &str, name: &str) -> (r: Element) {
        leaf(prefix, ns, name, self.to_wire())
    }
}

/// The kind of device that asks to enroll. A value the server does not know
/// is kept as it was written.
#[derive(Debug)]
pub enum DeviceType {
    CIMClientWindows,
    WindowsPhone,
    Unknown(String),
}

impl DeviceType {
    /// The text of the value on the wire.
    pub open spec fn wire(&self) -> Seq<char> {
        match self {
            DeviceType::CIMClientWindows => "CIMClient_Windows"@,
            DeviceType::WindowsPhone => "WindowsPhone"@,
            DeviceType::Unknown(s) => s@,
        }
    }

    pub open spec fn is_known(t: Seq<char>) -> bool {
        t == "CIMClient_Windows"@ || t == "WindowsPhone"@
    }

    /// An unknown value does not hold the text of a known one.
    pub open spec fn wf(&self) -> bool {
        self matches DeviceType::Unknown(s) ==> !Self::is_known(s@)
    }

    /// `t` is the text written for this value.
    pub open spec fn written_as(&self, t: String) -> bool {
        match self {
            DeviceType::Unknown(s) => t@ == s@,
            _ => t@ == self.wire(),
        }
    }

    /// Reading `t` gives `v`: the known value with that text, else `t`
    /// itself as an unknown value.
    pub open spec fn read_as(t: String, v: Self) -> bool {
        match v {
            DeviceType::Unknown(s) => s@ == t@ && !Self::is_known(t@),
            _ => t@ == v.wire(),
        }
    }

    /// The text of this value on the wire.
    pub fn to_wire(&self) -> (r: String)
        ensures
            self.written_as(r),
            r@ == self.wire(),
    {
        match self {
            DeviceType::CIMClientWindows => String::from_str("CIMClient_Windows"),
            DeviceType::WindowsPhone => String::from_str("WindowsPhone"),
            DeviceType::Unknown(s) => s.clone(),
        }
    }

    /// The value a wire text stands for; any other text is kept verbatim.
    pub fn from_wire(t: &String) -> (r: DeviceType)
        ensures
            Self::read_as(*t, r),
            r.wf(),
    {
        if str_eq(t.as_str(), "CIMClient_Windows") {
            DeviceType::CIMClientWindows
        } else if str_eq(t.as_str(), "WindowsPhone") {
            DeviceType::WindowsPhone
        } else {
            DeviceType::Unknown(t.clone())
        }
    }

    /// The value with that text, known or not.
    pub fn from_str(t: &str) -> (r: DeviceType)
        ensures
            r.wire() == t@,
            r.wf(),
            (r is Unknown) == !Self::is_known(t@),
    {
        let s = String::from_str(t);
        proof {
            reveal_strlit("CIMClient_Windows");
            reveal_strlit("WindowsPhone");
        }
        Self::from_wire(&s)
    }
}

impl Default for DeviceType {
    fn default() -> (r: DeviceType)
        ensures
            r matches DeviceType::Unknown(s) && s@ == "No valid variants"@,
    {
        DeviceType::Unknown(String::from_str("No valid variants"))
    }
}

/// Whatever is written for a value reads back as that value; an unknown
/// value comes back with exactly the text it held.
pub proof fn law_device_type_wire_round_trip(v: DeviceType, t: String)
    requires
        v.wf(),
        v.written_as(t),
    ensures
        DeviceType::read_as(t, v),
        t@ == v.wire(),
{
}

impl XmlMessage for DeviceType {
    open spec fn wf(&self) -> bool {
        DeviceType::wf(self)
    }

    open spec fn encodes(&self, e: Element) -> bool {
        self.written_as(e.text)
    }

    open spec fn decodes(e: Element, v: Self) -> bool {
        DeviceType::read_as(e.text, v)
    }

    open spec fn same(&self, other: &Self) -> bool {
        self.wire() == other.wire()
    }

    proof fn lemma_encodes_tree(&self, e1: Element, e2: Element) {
        lemma_tree_parts(e1, e2);
    }

    fn to_element(&self, prefix: &str, ns: &str, name: &str) -> (r: Element) {
        self.build(prefix, ns, name)
    }

    fn from_element(e: &Element) -> (r: Result<Self, DecodeError>) {
        proof {
            reveal_strlit("CIMClient_Windows");
            reveal_strlit("WindowsPhone");
        }
        let r = DeviceType::from_wire(&e.text);
        proof {
            assert forall|v: Self| XmlMessage::wf(&v) && #[trigger] v.encodes(*e) implies r.same(&v) by {
                assert(DeviceType::wf(&v));
                assert(v.written_as(e.text));
                assert(DeviceType::read_as(e.text, r));
                match v {
                    DeviceType::Unknown(s) => {
                        assert(s@ == e.text@);
                    },
                    _ => {
                        assert(e.text@ == v.wire());
                    },
                }
            }
        }
        Ok(r)
    }
}

impl XmlModel for DeviceType {
    open spec fn model(&self, prefix: Seq<char>, ns: Seq<char>, name: Seq<char>) -> Model {
        leaf_model(prefix, ns, name, self.wire())
    }

    fn build(&self, prefix: &str, ns: &str, name: &str) -> (r: Element) {
        leaf(prefix, ns, name, self.to_wire())
    }
}

// ----------------------------------------------------------------------
// Headers
// ----------------------------------------------------------------------

/// Where the answer to a message goes.
#[derive(Debug)]
pub struct ReplyToType {
    pub address: String,
}

impl XmlMessage for ReplyToType {
    open spec fn wf(&self) -> bool {
        true
    }

    open spec fn encodes(&self, e: Element) -> bool {
        text_field(e, ADDRESSING_NS@, "Address"@, self.address)
    }

    open spec fn decodes(e: Element, v: Self) -> bool {
        text_field(e, ADDRESSING_NS@, "Address"@, v.address)
    }

    open spec fn same(&self, other: &Self) -> bool {
        self.address@ == other.address@
    }

    proof fn lemma_encodes_tree(&self, e1: Element, e2: Element) {
        lemma_same_tree_children(e1, e2, ADDRESSING_NS@);
    }

    fn to_element(&self, prefix: &str, ns: &str, name: &str) -> (r: Element) {
        self.build(prefix, ns, name)
    }

    fn from_element(e: &Element) -> (r: Result<Self, DecodeError>) {
        let address = required_text(e, ADDRESSING_NS, "Address")?;
        Ok(ReplyToType { address })
    }
}

impl XmlModel for ReplyToType {
    open spec fn model(&self, prefix: Seq<char>, ns: Seq<char>, name: Seq<char>) -> Model {
        with_child(bare_model(prefix, ns, name), leaf_model("a"@, ADDRESSING_NS@, "Address"@, self.address@))
    }

    fn build(&self, prefix: &str, ns: &str, name: &str) -> (r: Element) {
        let mut e = bare(prefix, ns, name);
        push_child(&mut e, leaf("a", ADDRESSING_NS, "Address", self.address.clone()));
        assert(model_of(e).children =~= self.model(prefix@, ns@, name@).children);
        e
    }
}

/// The WS-Addressing header of a discovery request.
#[derive(Debug)]
pub struct DiscoverHeader {
    pub action: String,
    pub message_id: String,
    pub reply_to: ReplyToType,
    pub to: String,
}

impl XmlMessage for DiscoverHeader {
    open spec fn wf(&self) -> bool {
        true
    }

    open spec fn encodes(&self, e: Element) -> bool {
        &&& text_field(e, ADDRESSING_NS@, "Action"@, self.action)
        &&& text_field(e, ADDRESSING_NS@, "MessageID"@, self.message_id)
        &&& child(e, ADDRESSING_NS@, "ReplyTo"@) matches Some(c) && self.reply_to.encodes(c)
        &&& text_field(e, ADDRESSING_NS@, "To"@, self.to)
    }

    open spec fn decodes(e: Element, v: Self) -> bool {
        &&& text_field(e, ADDRESSING_NS@, "Action"@, v.action)
        &&& text_field(e, ADDRESSING_NS@, "MessageID"@, v.message_id)
        &&& child(e, ADDRESSING_NS@, "ReplyTo"@) matches Some(c) && ReplyToType::decodes(c, v.reply_to)
        &&& text_field(e, ADDRESSING_NS@, "To"@, v.to)
    }

    open spec fn same(&self, other: &Self) -> bool {
        &&& self.action@ == other.action@
        &&& self.message_id@ == other.message_id@
        &&& self.reply_to.same(&other.reply_to)
        &&& self.to@ == other.to@
    }

    proof fn lemma_encodes_tree(&self, e1: Element, e2: Element) {
        lemma_same_tree_children(e1, e2, ADDRESSING_NS@);
        self.reply_to.lemma_encodes_tree(child(e1, ADDRESSING_NS@, "ReplyTo"@)->0, child(e2, ADDRESSING_NS@, "ReplyTo"@)->0);
    }

    fn to_element(&self, prefix: &str, ns: &str, name: &str) -> (r: Element) {
        self.build(prefix, ns, name)
    }

    fn from_element(e: &Element) -> (r: Result<Self, DecodeError>) {
        let action = required_text(e, ADDRESSING_NS, "Action")?;
        let message_id = required_text(e, ADDRESSING_NS, "MessageID")?;
        let c = required_child(e, ADDRESSING_NS, "ReplyTo")?;
        let reply_to = ReplyToType::from_element(c)?;
        let to = required_text(e, ADDRESSING_NS, "To")?;
        Ok(DiscoverHeader { action, message_id, reply_to, to })
    }
}

impl XmlModel for DiscoverHeader {
    open spec fn model(&self, prefix: Seq<char>, ns: Seq<char>, name: Seq<char>) -> Model {
        with_children(
            bare_model(prefix, ns, name),
            seq![
                leaf_model("a"@, ADDRESSING_NS@, "Action"@, self.action@),
                leaf_model("a"@, ADDRESSING_NS@, "MessageID"@, self.message_id@),
                self.reply_to.model("a"@, ADDRESSING_NS@, "ReplyTo"@),
                leaf_model("a"@, ADDRESSING_NS@, "To"@, self.to@),
            ],
        )
    }

    fn build(&self, prefix: &str, ns: &str, name: &str) -> (r: Element) {
        proof {
            reveal_strlit("Action");
            reveal_strlit("MessageID");
            reveal_strlit("ReplyTo");
            reveal_strlit("To");
            assert("Action"@.len() == 6);
            assert("MessageID"@.len() == 9);
            assert("ReplyTo"@.len() == 7);
            assert("To"@.len() == 2);
        }
        let mut e = bare(prefix, ns, name);
        push_child(&mut e, leaf("a", ADDRESSING_NS, "Action", self.action.clone()));
        push_child(&mut e, leaf("a", ADDRESSING_NS, "MessageID", self.message_id.clone()));
        let c = self.reply_to.build("a", ADDRESSING_NS, "ReplyTo");
        push_child(&mut e, c);
        push_child(&mut e, leaf("a", ADDRESSING_NS, "To", self.to.clone()));
        assert(model_of(e).children =~= self.model(prefix@, ns@, name@).children);
        e
    }
}

/// The WS-Addressing header of a discovery response.
#[derive(Debug)]
pub struct DiscoverResponseHeader {
    pub action: String,
    pub activity_id: Option<String>,
    pub relates_to: String,
}

impl XmlMessage for DiscoverResponseHeader {
    open spec fn wf(&self) -> bool {
        true
    }

    open spec fn encodes(&self, e: Element) -> bool {
        &&& text_field(e, ADDRESSING_NS@, "Action"@, self.action)
        &&& optional_text_field(e, ADDRESSING_NS@, "ActivityId"@, self.activity_id)
        &&& text_field(e, ADDRESSING_NS@, "RelatesTo"@, self.relates_to)
    }

    open spec fn decodes(e: Element, v: Self) -> bool {
        v.encodes(e)
    }

    open spec fn same(&self, other: &Self) -> bool {
        &&& self.action@ == other.action@
        &&& opt_view(self.activity_id) == opt_view(other.activity_id)
        &&& self.relates_to@ == other.relates_to@
    }

    proof fn lemma_encodes_tree(&self, e1: Element, e2: Element) {
        lemma_same_tree_children(e1, e2, ADDRESSING_NS@);
    }

    fn to_element(&self, prefix: &str, ns: &str, name: &str) -> (r: Element) {
        self.build(prefix, ns, name)
    }

    fn from_element(e: &Element) -> (r: Result<Self, DecodeError>) {
        let action = required_text(e, ADDRESSING_NS, "Action")?;
        let activity_id = child_text(e, ADDRESSING_NS, "ActivityId");
        let relates_to = required_text(e, ADDRESSING_NS, "RelatesTo")?;
        Ok(DiscoverResponseHeader { action, activity_id, relates_to })
    }
}

impl XmlModel for DiscoverResponseHeader {
    open spec fn model(&self, prefix: Seq<char>, ns: Seq<char>, name: Seq<char>) -> Model {
        with_children(
            bare_model(prefix, ns, name),
            seq![leaf_model("a"@, ADDRESSING_NS@, "Action"@, self.action@)] + match self.activity_id {
                Some(id) => seq![leaf_model("a"@, ADDRESSING_NS@, "ActivityId"@, id@)],
                None => Seq::empty(),
            } + seq![leaf_model("a"@, ADDRESSING_NS@, "RelatesTo"@, self.relates_to@)],
        )
    }

    fn build(&self, prefix: &str, ns: &str, name: &str) -> (r: Element) {
        proof {
            reveal_strlit("Action");
            reveal_strlit("ActivityId");
            reveal_strlit("RelatesTo");
            assert("Action"@.len() == 6);
            assert("ActivityId"@.len() == 10);
            assert("RelatesTo"@.len() == 9);
        }
        let mut e = bare(prefix, ns, name);
        push_child(&mut e, leaf("a", ADDRESSING_NS, "Action", self.action.clone()));
        if let Some(id) = &self.activity_id {
            push_child(&mut e, leaf("a", ADDRESSING_NS, "ActivityId", id.clone()));
        }
        push_child(&mut e, leaf("a", ADDRESSING_NS, "RelatesTo", self.relates_to.clone()));
        assert(model_of(e).children =~= self.model(prefix@, ns@, name@).children);
        e
    }
}

// ----------------------------------------------------------------------
// Request
// ----------------------------------------------------------------------

/// The authentication policies a device supports, in order.
#[derive(Debug)]
pub struct AuthPoliciesType {
    pub auth_policy: Vec<AuthPolicyType>,
}

impl XmlMessage for AuthPoliciesType {
    open spec fn wf(&self) -> bool {
        forall|i: int| 0 <= i < self.auth_policy@.len() ==> (#[trigger] self.auth_policy@[i]).wf()
    }

    open spec fn encodes(&self, e: Element) -> bool {
        &&& e.children@.len() == self.auth_policy@.len()
        &&& forall|i: int|
            0 <= i < e.children@.len() ==> named(#[trigger] e.children@[i], ENROLL_NS@, "AuthPolicy"@)
                && self.auth_policy@[i].written_as(e.children@[i].text)
    }

    open spec fn decodes(e: Element, v: Self) -> bool {
        let f = filter_named(e.children@, ENROLL_NS@, "AuthPolicy"@);
        &&& v.auth_policy@.len() == f.len()
        &&& forall|i: int|
            0 <= i < f.len() ==> AuthPolicyType::read_as(#[trigger] f[i].text, v.auth_policy@[i])
    }

    open spec fn same(&self, other: &Self) -> bool {
        &&& self.auth_policy@.len() == other.auth_policy@.len()
        &&& forall|i: int| 0 <= i < self.auth_policy@.len() ==> #[trigger] self.auth_policy@[i].wire() == other.auth_policy@[i].wire()
    }

    proof fn lemma_encodes_tree(&self, e1: Element, e2: Element) {
        lemma_tree_parts(e1, e2);
        assert forall|i: int| 0 <= i < e2.children@.len() implies named(#[trigger] e2.children@[i], ENROLL_NS@, "AuthPolicy"@)
            && self.auth_policy@[i].written_as(e2.children@[i].text) by {
            assert(tree_of(e1.children@[i]) == tree_of(e2.children@[i]));
        }
    }

    fn to_element(&self, prefix: &str, ns: &str, name: &str) -> (r: Element) {
        self.build(prefix, ns, name)
    }

    fn from_element(e: &Element) -> (r: Result<Self, DecodeError>) {
        let mut out: Vec<AuthPolicyType> = Vec::new();
        let mut i: usize = 0;
        while i < e.children.len()
            invariant
                i <= e.children.len(),
                out@.len() == filter_named(e.children@.subrange(0, i as int), ENROLL_NS@, "AuthPolicy"@).len(),
                forall|j: int|
                    0 <= j < out@.len() ==> AuthPolicyType::read_as(
                        #[trigger] filter_named(e.children@.subrange(0, i as int), ENROLL_NS@, "AuthPolicy"@)[j].text,
                        out@[j],
                    ),
            decreases e.children.len() - i,
        {
            let c = &e.children[i];
            let ghost before = filter_named(e.children@.subrange(0, i as int), ENROLL_NS@, "AuthPolicy"@);
            assert(e.children@.subrange(0, i + 1).drop_last() =~= e.children@.subrange(0, i as int));
            if str_eq(c.namespace.as_str(), ENROLL_NS) && str_eq(c.name.as_str(), "AuthPolicy") {
                out.push(AuthPolicyType::from_wire(&c.text));
            }
            i = i + 1;
        }
        assert(e.children@.subrange(0, i as int) =~= e.children@);
        let r = AuthPoliciesType { auth_policy: out };
        proof {
            assert forall|v: Self| XmlMessage::wf(&v) && #[trigger] v.encodes(*e) implies r.same(&v) by {
                lemma_filter_all_named(e.children@, ENROLL_NS@, "AuthPolicy"@);
                assert forall|k: int| 0 <= k < r.auth_policy@.len() implies #[trigger] r.auth_policy@[k].wire() == v.auth_policy@[k].wire() by {
                    assert(named(e.children@[k], ENROLL_NS@, "AuthPolicy"@));
                    assert(v.auth_policy@[k].wf());
                    lemma_auth_policy_read_back(v.auth_policy@[k], r.auth_policy@[k], e.children@[k].text);
                }
            }
        }
        Ok(r)
    }
}

impl XmlModel for AuthPoliciesType {
    open spec fn model(&self, prefix: Seq<char>, ns: Seq<char>, name: Seq<char>) -> Model {
        with_children(
            bare_model(prefix, ns, name),
            Seq::new(
                self.auth_policy@.len(),
                |i: int| leaf_model("enroll"@, ENROLL_NS@, "AuthPolicy"@, self.auth_policy@[i].wire()),
            ),
        )
    }

    fn build(&self, prefix: &str, ns: &str, name: &str) -> (r: Element) {
        let mut e = bare(prefix, ns, name);
        let mut i: usize = 0;
        assert(model_of(e).children =~= Seq::new(0, |j: int| leaf_model("enroll"@, ENROLL_NS@, "AuthPolicy"@, self.auth_policy@[j].wire())));
        while i < self.auth_policy.len()
            invariant
                i <= self.auth_policy.len(),
                bare_spec(e, prefix@, ns@, name@),
                model_of(e) == with_children(
                    bare_model(prefix@, ns@, name@),
                    Seq::new(i as nat, |j: int| leaf_model("enroll"@, ENROLL_NS@, "AuthPolicy"@, self.auth_policy@[j].wire())),
                ),
                e.children@.len() == i,
                forall|j: int|
                    0 <= j < i ==> named(#[trigger] e.children@[j], ENROLL_NS@, "AuthPolicy"@)
                        && self.auth_policy@[j].written_as(e.children@[j].text),
            decreases self.auth_policy.len() - i,
        {
            let c = leaf("enroll", ENROLL_NS, "AuthPolicy", self.auth_policy[i].to_wire());
            push_child(&mut e, c);
            assert(model_of(e).children =~= Seq::new((i + 1) as nat, |j: int| leaf_model("enroll"@, ENROLL_NS@, "AuthPolicy"@, self.auth_policy@[j].wire())));
            i = i + 1;
        }
        assert(model_of(e).children =~= self.model(prefix@, ns@, name@).children);
        e
    }
}

/// What a device tells about itself when it asks to enroll.
///
/// A request is read only from an element that holds its required children;
/// without `RequestVersion` reading fails with `MissingField("RequestVersion")`.
#[derive(Debug)]
pub struct RequestType {
    pub email_address: Option<String>,
    pub request_version: Decimal,
    pub device_type: DeviceType,
    pub application_version: String,
    pub os_edition: u32,
    pub auth_policies: AuthPoliciesType,
}

impl XmlMessage for RequestType {
    open spec fn wf(&self) -> bool {
        &&& self.request_version.wf()
        &&& XmlMessage::wf(&self.device_type)
        &&& XmlMessage::wf(&self.auth_policies)
    }

    open spec fn encodes(&self, e: Element) -> bool {
        &&& optional_text_field(e, ENROLL_NS@, "EmailAddress"@, self.email_address)
        &&& decimal_written(e, ENROLL_NS@, "RequestVersion"@, self.request_version)
        &&& child(e, ENROLL_NS@, "DeviceType"@) matches Some(c) && self.device_type.encodes(c)
        &&& text_field(e, ENROLL_NS@, "ApplicationVersion"@, self.application_version)
        &&& unsigned_written(e, ENROLL_NS@, "OSEdition"@, self.os_edition as nat)
        &&& child(e, ENROLL_NS@, "AuthPolicies"@) matches Some(c) && self.auth_policies.encodes(c)
    }

    open spec fn decodes(e: Element, v: Self) -> bool {
        &&& optional_text_field(e, ENROLL_NS@, "EmailAddress"@, v.email_address)
        &&& decimal_read(e, ENROLL_NS@, "RequestVersion"@, v.request_version)
        &&& child(e, ENROLL_NS@, "DeviceType"@) matches Some(c) && DeviceType::decodes(c, v.device_type)
        &&& text_field(e, ENROLL_NS@, "ApplicationVersion"@, v.application_version)
        &&& unsigned_read(e, ENROLL_NS@, "OSEdition"@, v.os_edition as nat, u32::MAX as nat)
        &&& child(e, ENROLL_NS@, "AuthPolicies"@) matches Some(c) && AuthPoliciesType::decodes(c, v.auth_policies)
    }

    open spec fn same(&self, other: &Self) -> bool {
        &&& opt_view(self.email_address) == opt_view(other.email_address)
        &&& self.request_version == other.request_version
        &&& self.device_type.same(&other.device_type)
        &&& self.application_version@ == other.application_version@
        &&& self.os_edition == other.os_edition
        &&& self.auth_policies.same(&other.auth_policies)
    }

    proof fn lemma_encodes_tree(&self, e1: Element, e2: Element) {
        lemma_same_tree_children(e1, e2, ENROLL_NS@);
        self.device_type.lemma_encodes_tree(child(e1, ENROLL_NS@, "DeviceType"@)->0, child(e2, ENROLL_NS@, "DeviceType"@)->0);
        self.auth_policies.lemma_encodes_tree(child(e1, ENROLL_NS@, "AuthPolicies"@)->0, child(e2, ENROLL_NS@, "AuthPolicies"@)->0);
    }

    fn to_element(&self, prefix: &str, ns: &str, name: &str) -> (r: Element) {
        self.build(prefix, ns, name)
    }

    fn from_element(e: &Element) -> (r: Result<Self, DecodeError>) {
        RequestType::read(e)
    }
}

impl XmlModel for RequestType {
    open spec fn model(&self, prefix: Seq<char>, ns: Seq<char>, name: Seq<char>) -> Model {
        with_children(
            bare_model(prefix, ns, name),
            match self.email_address {
                Some(m) => seq![leaf_model("enroll"@, ENROLL_NS@, "EmailAddress"@, m@)],
                None => Seq::empty(),
            } + seq![
                leaf_model("enroll"@, ENROLL_NS@, "RequestVersion"@, self.request_version.text_spec()),
                self.device_type.model("enroll"@, ENROLL_NS@, "DeviceType"@),
                leaf_model("enroll"@, ENROLL_NS@, "ApplicationVersion"@, self.application_version@),
                leaf_model("enroll"@, ENROLL_NS@, "OSEdition"@, nat_text(self.os_edition as nat)),
                self.auth_policies.model("enroll"@, ENROLL_NS@, "AuthPolicies"@),
            ],
        )
    }

    fn build(&self, prefix: &str, ns: &str, name: &str) -> (r: Element) {
        proof {
            reveal_strlit("EmailAddress");
            reveal_strlit("RequestVersion");
            reveal_strlit("DeviceType");
            reveal_strlit("ApplicationVersion");
            reveal_strlit("OSEdition");
            reveal_strlit("AuthPolicies");
            assert("EmailAddress"@.len() == 12);
            assert("RequestVersion"@.len() == 14);
            assert("DeviceType"@.len() == 10);
            assert("ApplicationVersion"@.len() == 18);
            assert("OSEdition"@.len() == 9);
            assert("AuthPolicies"@.len() == 12);
            assert("EmailAddress"@[0] != "AuthPolicies"@[0]);
        }
        let mut e = bare(prefix, ns, name);
        if let Some(m) = &self.email_address {
            push_child(&mut e, leaf("enroll", ENROLL_NS, "EmailAddress", m.clone()));
        }
        push_child(&mut e, leaf("enroll", ENROLL_NS, "RequestVersion", self.request_version.to_string()));
        push_child(&mut e, self.device_type.build("enroll", ENROLL_NS, "DeviceType"));
        push_child(&mut e, leaf("enroll", ENROLL_NS, "ApplicationVersion", self.application_version.clone()));
        push_child(&mut e, leaf("enroll", ENROLL_NS, "OSEdition", u64_string(self.os_edition as u64)));
        push_child(&mut e, self.auth_policies.build("enroll", ENROLL_NS, "AuthPolicies"));
        assert(model_of(e).children =~= self.model(prefix@, ns@, name@).children);
        e
    }
}

impl RequestType {
    /// Reads a request from the content of `e`. Without a `RequestVersion`
    /// child it fails with `MissingField("RequestVersion")`.
    pub fn read(e: &Element) -> (r: Result<RequestType, DecodeError>)
        ensures
            r matches Ok(v) ==> RequestType::decodes(*e, v),
            forall|v: RequestType| XmlMessage::wf(&v) && #[trigger] v.encodes(*e) ==> (r matches Ok(w) && w.same(&v)),
            child(*e, ENROLL_NS@, "RequestVersion"@) is None ==> (r matches Err(x) && x is MissingField
                && (x->MissingField_0)@ == "RequestVersion"@),
    {
        proof {
            reveal_strlit("EmailAddress");
            reveal_strlit("RequestVersion");
            reveal_strlit("DeviceType");
            reveal_strlit("ApplicationVersion");
            reveal_strlit("OSEdition");
            reveal_strlit("AuthPolicies");
            assert("EmailAddress"@.len() == 12);
            assert("RequestVersion"@.len() == 14);
            assert("DeviceType"@.len() == 10);
            assert("ApplicationVersion"@.len() == 18);
            assert("OSEdition"@.len() == 9);
            assert("AuthPolicies"@.len() == 12);
            assert("EmailAddress"@[0] != "AuthPolicies"@[0]);
        }
        let email_address = child_text(e, ENROLL_NS, "EmailAddress");
        let request_version = read_decimal(e, ENROLL_NS, "RequestVersion")?;
        let dc = required_child(e, ENROLL_NS, "DeviceType")?;
        let device_type = DeviceType::from_element(dc)?;
        let application_version = required_text(e, ENROLL_NS, "ApplicationVersion")?;
        let os_edition = read_unsigned_field(e, ENROLL_NS, "OSEdition", 4294967295)?;
        let ac = required_child(e, ENROLL_NS, "AuthPolicies")?;
        let auth_policies = AuthPoliciesType::from_element(ac)?;
        Ok(RequestType {
            email_address,
            request_version,
            device_type,
            application_version,
            os_edition: os_edition as u32,
            auth_policies,
        })
    }
}

/// The `Discover` operation: one request.
#[derive(Debug)]
pub struct Discover {
    pub request: RequestType,
}

impl XmlMessage for Discover {
    open spec fn wf(&self) -> bool {
        XmlMessage::wf(&self.request)
    }

    open spec fn encodes(&self, e: Element) -> bool {
        child(e, ENROLL_NS@, "request"@) matches Some(c) && self.request.encodes(c)
    }

    open spec fn decodes(e: Element, v: Self) -> bool {
        child(e, ENROLL_NS@, "request"@) matches Some(c) && RequestType::decodes(c, v.request)
    }

    open spec fn same(&self, other: &Self) -> bool {
        self.request.same(&other.request)
    }

    proof fn lemma_encodes_tree(&self, e1: Element, e2: Element) {
        lemma_tree_parts(e1, e2);
        lemma_same_tree_children(e1, e2, ENROLL_NS@);
        self.request.lemma_encodes_tree(child(e1, ENROLL_NS@, "request"@)->0, child(e2, ENROLL_NS@, "request"@)->0);
    }

    fn to_element(&self, prefix: &str, ns: &str, name: &str) -> (r: Element) {
        self.build(prefix, ns, name)
    }

    fn from_element(e: &Element) -> (r: Result<Self, DecodeError>) {
        let c = required_child(e, ENROLL_NS, "request")?;
        let request = RequestType::from_element(c)?;
        Ok(Discover { request })
    }
}

impl XmlModel for Discover {
    open spec fn model(&self, prefix: Seq<char>, ns: Seq<char>, name: Seq<char>) -> Model {
        with_child(bare_model(prefix, ns, name), self.request.model("enroll"@, ENROLL_NS@, "request"@))
    }

    fn build(&self, prefix: &str, ns: &str, name: &str) -> (r: Element) {
        let mut e = bare(prefix, ns, name);
        push_child(&mut e, self.request.build("enroll", ENROLL_NS, "request"));
        assert(model_of(e).children =~= self.model(prefix@, ns@, name@).children);
        e
    }
}

/// The body of a discovery request.
#[derive(Debug)]
pub struct DiscoverRequestBody {
    pub discover: Discover,
}

impl XmlMessage for DiscoverRequestBody {
    open spec fn wf(&self) -> bool {
        XmlMessage::wf(&self.discover)
    }

    open spec fn encodes(&self, e: Element) -> bool {
        child(e, ENROLL_NS@, "Discover"@) matches Some(c) && self.discover.encodes(c)
    }

    open spec fn decodes(e: Element, v: Self) -> bool {
        child(e, ENROLL_NS@, "Discover"@) matches Some(c) && Discover::decodes(c, v.discover)
    }

    open spec fn same(&self, other: &Self) -> bool {
        self.discover.same(&other.discover)
    }

    proof fn lemma_encodes_tree(&self, e1: Element, e2: Element) {
        lemma_tree_parts(e1, e2);
        lemma_same_tree_children(e1, e2, ENROLL_NS@);
        self.discover.lemma_encodes_tree(child(e1, ENROLL_NS@, "Discover"@)->0, child(e2, ENROLL_NS@, "Discover"@)->0);
    }

    fn to_element(&self, prefix: &str, ns: &str, name: &str) -> (r: Element) {
        self.build(prefix, ns, name)
    }

    fn from_element(e: &Element) -> (r: Result<Self, DecodeError>) {
        let c = required_child(e, ENROLL_NS, "Discover")?;
        let discover = Discover::from_element(c)?;
        Ok(DiscoverRequestBody { discover })
    }
}

impl XmlModel for DiscoverRequestBody {
    open spec fn model(&self, prefix: Seq<char>, ns: Seq<char>, name: Seq<char>) -> Model {
        with_child(bare_model(prefix, ns, name), self.discover.model("enroll"@, ENROLL_NS@, "Discover"@))
    }

    fn build(&self, prefix: &str, ns: &str, name: &str) -> (r: Element) {
        let mut e = bare(prefix, ns, name);
        push_child(&mut e, self.discover.build("enroll", ENROLL_NS, "Discover"));
        assert(model_of(e).children =~= self.model(prefix@, ns@, name@).children);
        e
    }
}

// ----------------------------------------------------------------------
// Response
// ----------------------------------------------------------------------

/// The services a server offers to a device that enrolls.
#[derive(Debug)]
pub struct DiscoverResult {
    pub auth_policy: AuthPolicyType,
    pub enrollment_policy_service_url: Option<String>,
    pub enrollment_service_url: String,
    /// Only meaningful when the policy is `Federated`.
    pub authentication_service_url: Option<String>,
    pub enrollment_version: Option<Decimal>,
}

/// The element holds the canonical text of `d`, or there is none and `d` is `None`.
pub open spec fn optional_decimal_written(e: Element, ns: Seq<char>, name: Seq<char>, d: Option<Decimal>) -> bool {
    match d {
        Some(x) => decimal_written(e, ns, name, x),
        None => child(e, ns, name) is None,
    }
}

/// The element holds a text that reads as `d`, or there is none and `d` is `None`.
pub open spec fn optional_decimal_read(e: Element, ns: Seq<char>, name: Seq<char>, d: Option<Decimal>) -> bool {
    match d {
        Some(x) => decimal_read(e, ns, name, x),
        None => child(e, ns, name) is None,
    }
}

impl DiscoverResult {
    /// The names of the children written for this result, in order.
    pub open spec fn child_names(&self) -> Seq<Seq<char>> {
        seq!["AuthPolicy"@] + (if self.enrollment_policy_service_url is Some {
            seq!["EnrollmentPolicyServiceUrl"@]
        } else {
            Seq::empty()
        }) + seq!["EnrollmentServiceUrl"@] + (if self.authentication_service_url is Some {
            seq!["AuthenticationServiceUrl"@]
        } else {
            Seq::empty()
        }) + (if self.enrollment_version is Some {
            seq!["EnrollmentVersion"@]
        } else {
            Seq::empty()
        })
    }
}

/// A result with on-premise authentication, both service addresses and a
/// version, and no authentication service, is written as exactly four
/// children: the policy, the policy service, the enrollment service and the
/// version, in that order.
pub proof fn law_discover_result_children(v: DiscoverResult, e: Element)
    requires
        v.encodes(e),
        v.auth_policy == AuthPolicyType::OnPremise,
        v.enrollment_policy_service_url is Some,
        v.authentication_service_url is None,
        v.enrollment_version is Some,
    ensures
        e.children@.len() == 4,
        e.children@[0].name@ == "AuthPolicy"@,
        e.children@[1].name@ == "EnrollmentPolicyServiceUrl"@,
        e.children@[2].name@ == "EnrollmentServiceUrl"@,
        e.children@[3].name@ == "EnrollmentVersion"@,
        child(e, ENROLL_NS@, "AuthenticationServiceUrl"@) is None,
{
    assert(v.child_names() =~= seq!["AuthPolicy"@, "EnrollmentPolicyServiceUrl"@, "EnrollmentServiceUrl"@, "EnrollmentVersion"@]);
}

impl XmlMessage for DiscoverResult {
    open spec fn wf(&self) -> bool {
        &&& XmlMessage::wf(&self.auth_policy)
        &&& (self.enrollment_version matches Some(d) ==> d.wf())
    }

    open spec fn encodes(&self, e: Element) -> bool {
        &&& child(e, ENROLL_NS@, "AuthPolicy"@) matches Some(c) && self.auth_policy.encodes(c)
        &&& optional_text_field(e, ENROLL_NS@, "EnrollmentPolicyServiceUrl"@, self.enrollment_policy_service_url)
        &&& text_field(e, ENROLL_NS@, "EnrollmentServiceUrl"@, self.enrollment_service_url)
        &&& optional_text_field(e, ENROLL_NS@, "AuthenticationServiceUrl"@, self.authentication_service_url)
        &&& optional_decimal_written(e, ENROLL_NS@, "EnrollmentVersion"@, self.enrollment_version)
        &&& e.children@.len() == self.child_names().len()
        &&& forall|i: int| 0 <= i < e.children@.len() ==> (#[trigger] e.children@[i]).name@ == self.child_names()[i]
    }

    open spec fn decodes(e: Element, v: Self) -> bool {
        &&& child(e, ENROLL_NS@, "AuthPolicy"@) matches Some(c) && AuthPolicyType::decodes(c, v.auth_policy)
        &&& optional_text_field(e, ENROLL_NS@, "EnrollmentPolicyServiceUrl"@, v.enrollment_policy_service_url)
        &&& text_field(e, ENROLL_NS@, "EnrollmentServiceUrl"@, v.enrollment_service_url)
        &&& optional_text_field(e, ENROLL_NS@, "AuthenticationServiceUrl"@, v.authentication_service_url)
        &&& optional_decimal_read(e, ENROLL_NS@, "EnrollmentVersion"@, v.enrollment_version)
    }

    open spec fn same(&self, other: &Self) -> bool {
        &&& self.auth_policy.same(&other.auth_policy)
        &&& opt_view(self.enrollment_policy_service_url) == opt_view(other.enrollment_policy_service_url)
        &&& self.enrollment_service_url@ == other.enrollment_service_url@
        &&& opt_view(self.authentication_service_url) == opt_view(other.authentication_service_url)
        &&& self.enrollment_version == other.enrollment_version
    }

    proof fn lemma_encodes_tree(&self, e1: Element, e2: Element) {
        lemma_tree_parts(e1, e2);
        lemma_same_tree_children(e1, e2, ENROLL_NS@);
        self.auth_policy.lemma_encodes_tree(child(e1, ENROLL_NS@, "AuthPolicy"@)->0, child(e2, ENROLL_NS@, "AuthPolicy"@)->0);
        assert forall|i: int| 0 <= i < e2.children@.len() implies (#[trigger] e2.children@[i]).name@ == self.child_names()[i] by {
            assert(tree_of(e1.children@[i]) == tree_of(e2.children@[i]));
        }
    }

    fn to_element(&self, prefix: &str, ns: &str, name: &str) -> (r: Element) {
        self.build(prefix, ns, name)
    }

    fn from_element(e: &Element) -> (r: Result<Self, DecodeError>) {
        let pc = required_child(e, ENROLL_NS, "AuthPolicy")?;
        let auth_policy = AuthPolicyType::from_element(pc)?;
        let enrollment_policy_service_url = child_text(e, ENROLL_NS, "EnrollmentPolicyServiceUrl");
        let enrollment_service_url = required_text(e, ENROLL_NS, "EnrollmentServiceUrl")?;
        let authentication_service_url = child_text(e, ENROLL_NS, "AuthenticationServiceUrl");
        let enrollment_version = read_optional_decimal(e, ENROLL_NS, "EnrollmentVersion")?;
        Ok(DiscoverResult {
            auth_policy,
            enrollment_policy_service_url,
            enrollment_service_url,
            authentication_service_url,
            enrollment_version,
        })
    }
}

impl XmlModel for DiscoverResult {
    open spec fn model(&self, prefix: Seq<char>, ns: Seq<char>, name: Seq<char>) -> Model {
        with_children(
            bare_model(prefix, ns, name),
            seq![self.auth_policy.model("enroll"@, ENROLL_NS@, "AuthPolicy"@)] + match self.enrollment_policy_service_url {
                Some(u) => seq![leaf_model("enroll"@, ENROLL_NS@, "EnrollmentPolicyServiceUrl"@, u@)],
                None => Seq::empty(),
            } + seq![leaf_model("enroll"@, ENROLL_NS@, "EnrollmentServiceUrl"@, self.enrollment_service_url@)]
                + match self.authentication_service_url {
                Some(u) => seq![leaf_model("enroll"@, ENROLL_NS@, "AuthenticationServiceUrl"@, u@)],
                None => Seq::empty(),
            } + match self.enrollment_version {
                Some(d) => seq![leaf_model("enroll"@, ENROLL_NS@, "EnrollmentVersion"@, d.text_spec())],
                None => Seq::empty(),
            },
        )
    }

    fn build(&self, prefix: &str, ns: &str, name: &str) -> (r: Element) {
        proof {
            reveal_strlit("AuthPolicy");
            reveal_strlit("EnrollmentPolicyServiceUrl");
            reveal_strlit("EnrollmentServiceUrl");
            reveal_strlit("AuthenticationServiceUrl");
            reveal_strlit("EnrollmentVersion");
            assert("AuthPolicy"@.len() == 10);
            assert("EnrollmentPolicyServiceUrl"@.len() == 26);
            assert("EnrollmentServiceUrl"@.len() == 20);
            assert("AuthenticationServiceUrl"@.len() == 24);
            assert("EnrollmentVersion"@.len() == 17);
        }
        let mut e = bare(prefix, ns, name);
        push_child(&mut e, self.auth_policy.build("enroll", ENROLL_NS, "AuthPolicy"));
        if let Some(u) = &self.enrollment_policy_service_url {
            push_child(&mut e, leaf("enroll", ENROLL_NS, "EnrollmentPolicyServiceUrl", u.clone()));
        }
        push_child(&mut e, leaf("enroll", ENROLL_NS, "EnrollmentServiceUrl", self.enrollment_service_url.clone()));
        if let Some(u) = &self.authentication_service_url {
            push_child(&mut e, leaf("enroll", ENROLL_NS, "AuthenticationServiceUrl", u.clone()));
        }
        if let Some(d) = &self.enrollment_version {
            push_child(&mut e, leaf("enroll", ENROLL_NS, "EnrollmentVersion", d.to_string()));
        }
        assert(e.children@.len() == self.child_names().len());
        assert(model_of(e).children =~= self.model(prefix@, ns@, name@).children);
        e
    }
}

/// The answer to the `Discover` operation.
#[derive(Debug)]
pub struct DiscoverResponse {
    pub response: DiscoverResult,
}

impl XmlMessage for DiscoverResponse {
    open spec fn wf(&self) -> bool {
        XmlMessage::wf(&self.response)
    }

    open spec fn encodes(&self, e: Element) -> bool {
        &&& e.children@.len() == 1
        &&& child(e, ENROLL_NS@, "DiscoverResult"@) matches Some(c) && self.response.encodes(c)
    }

    open spec fn decodes(e: Element, v: Self) -> bool {
        child(e, ENROLL_NS@, "DiscoverResult"@) matches Some(c) && DiscoverResult::decodes(c, v.response)
    }

    open spec fn same(&self, other: &Self) -> bool {
        self.response.same(&other.response)
    }

    proof fn lemma_encodes_tree(&self, e1: Element, e2: Element) {
        lemma_tree_parts(e1, e2);
        lemma_same_tree_children(e1, e2, ENROLL_NS@);
        self.response.lemma_encodes_tree(child(e1, ENROLL_NS@, "DiscoverResult"@)->0, child(e2, ENROLL_NS@, "DiscoverResult"@)->0);
    }

    fn to_element(&self, prefix: &str, ns: &str, name: &str) -> (r: Element) {
        self.build(prefix, ns, name)
    }

    fn from_element(e: &Element) -> (r: Result<Self, DecodeError>) {
        let c = required_child(e, ENROLL_NS, "DiscoverResult")?;
        let response = DiscoverResult::from_element(c)?;
        Ok(DiscoverResponse { response })
    }
}

impl XmlModel for DiscoverResponse {
    open spec fn model(&self, prefix: Seq<char>, ns: Seq<char>, name: Seq<char>) -> Model {
        with_child(bare_model(prefix, ns, name), self.response.model("enroll"@, ENROLL_NS@, "DiscoverResult"@))
    }

    fn build(&self, prefix: &str, ns: &str, name: &str) -> (r: Element) {
        let mut e = bare(prefix, ns, name);
        push_child(&mut e, self.response.build("enroll", ENROLL_NS, "DiscoverResult"));
        assert(model_of(e).children =~= self.model(prefix@, ns@, name@).children);
        e
    }
}

/// The body of a discovery response.
#[derive(Debug)]
pub struct DiscoverResponseBody {
    pub discover: DiscoverResponse,
}

impl XmlMessage for DiscoverResponseBody {
    open spec fn wf(&self) -> bool {
        XmlMessage::wf(&self.discover)
    }

    open spec fn encodes(&self, e: Element) -> bool {
        &&& e.children@.len() == 1
        &&& child(e, ENROLL_NS@, "DiscoverResponse"@) matches Some(c) && self.discover.encodes(c)
    }

    open spec fn decodes(e: Element, v: Self) -> bool {
        child(e, ENROLL_NS@, "DiscoverResponse"@) matches Some(c) && DiscoverResponse::decodes(c, v.discover)
    }

    open spec fn same(&self, other: &Self) -> bool {
        self.discover.same(&other.discover)
    }

    proof fn lemma_encodes_tree(&self, e1: Element, e2: Element) {
        lemma_tree_parts(e1, e2);
        lemma_same_tree_children(e1, e2, ENROLL_NS@);
        self.discover.lemma_encodes_tree(child(e1, ENROLL_NS@, "DiscoverResponse"@)->0, child(e2, ENROLL_NS@, "DiscoverResponse"@)->0);
    }

    fn to_element(&self, prefix: &str, ns: &str, name: &str) -> (r: Element) {
        self.build(prefix, ns, name)
    }

    fn from_element(e: &Element) -> (r: Result<Self, DecodeError>) {
        let c = required_child(e, ENROLL_NS, "DiscoverResponse")?;
        let discover = DiscoverResponse::from_element(c)?;
        Ok(DiscoverResponseBody { discover })
    }
}

impl XmlModel for DiscoverResponseBody {
    open spec fn model(&self, prefix: Seq<char>, ns: Seq<char>, name: Seq<char>) -> Model {
        with_child(bare_model(prefix, ns, name), self.discover.model("enroll"@, ENROLL_NS@, "DiscoverResponse"@))
    }

    fn build(&self, prefix: &str, ns: &str, name: &str) -> (r: Element) {
        let mut e = bare(prefix, ns, name);
        push_child(&mut e, self.discover.build("enroll", ENROLL_NS, "DiscoverResponse"));
        assert(model_of(e).children =~= self.model(prefix@, ns@, name@).children);
        e
    }
}

} // verus!
