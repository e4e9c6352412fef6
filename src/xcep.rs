//! The certificate enrollment policy exchange (XCEP): a client asks for the
//! policies that govern the certificates it may request.

use vstd::prelude::*;
use crate::datetime::{DateTime, rfc3339_reading, with_timezone};
use crate::markup::{Element, Attribute, DecodeError, bare, leaf, child_text, required_text, tree_of, opt_view, lemma_same_tree_children, lemma_tree_parts};
use crate::schema::{
    XmlMessage, ScalarKind, text_field, optional_text_field, scalar_written, optional_scalar_written,
    scalar_read, optional_scalar_read, scalar_text, bool_int, bool_text, u32_kind, u64_kind, i32_kind,
    optional_message_written, optional_message_read, optional_same, optional_wf, list_written,
    list_read, list_same, list_wf, text_list, int_list_written, int_list_read, required,
    read_u32_field, read_u64_field, read_i32_field, read_bool_field, read_text_list, read_int_list,
    read_message, read_optional_message, read_message_list, push_message_list, push_text_list,
    push_int_list, bool_leaf, int_leaf, push_field, same_texts, lemma_message_tree, lemma_list_tree,
    lemma_texts_tree,
};
use crate::soap::{attribute_value, find_attribute, lemma_attribute_tree};
use crate::text::u64_string;

verus! {

/// The enrollment policy namespace.
pub const XCEP_NS: &'static str = "http://schemas.microsoft.com/windows/pki/2009/01/enrollmentpolicy";

/// The XML Schema instance namespace.
pub const XSI_NS: &'static str = "http://www.w3.org/2001/XMLSchema-instance";

/// No nil marker, or one that reads as a boolean.
pub open spec fn nil_accepted(a: Option<String>) -> bool {
    a matches Some(s) ==> (s@ == bool_text(true) || s@ == bool_text(false))
}

/// When the client last updated its policies: a date-time, or a nil marker.
#[derive(Debug)]
pub struct ClientLastUpdate {
    pub is_null: Option<bool>,
    pub value: Option<DateTime>,
}

impl XmlMessage for ClientLastUpdate {
    open spec fn wf(&self) -> bool {
        self.value matches Some(d) ==> d.wf()
    }

    open spec fn encodes(&self, e: Element) -> bool {
        &&& match self.is_null {
            Some(b) => attribute_value(e.attributes@, XSI_NS@, "nil"@) matches Some(s) && s@ == bool_text(b),
            None => attribute_value(e.attributes@, XSI_NS@, "nil"@) is None,
        }
        &&& match self.value {
            Some(d) => e.text@ == d.text_spec(),
            None => e.text@.len() == 0,
        }
    }

    open spec fn decodes(e: Element, v: Self) -> bool {
        &&& match v.is_null {
            Some(b) => attribute_value(e.attributes@, XSI_NS@, "nil"@) matches Some(s) && s@ == bool_text(b),
            None => attribute_value(e.attributes@, XSI_NS@, "nil"@) is None,
        }
        &&& match v.value {
            Some(d) => d.wf() && Some(d.fields_spec()) == crate::datetime::rfc3339_reading(crate::datetime::with_timezone(e.text@)),
            None => e.text@.len() == 0,
        }
    }

    open spec fn same(&self, other: &Self) -> bool {
        &&& self.is_null == other.is_null
        &&& match (self.value, other.value) {
            (Some(a), Some(b)) => a.fields_spec() == b.fields_spec(),
            (None, None) => true,
            _ => false,
        }
    }

    proof fn lemma_encodes_tree(&self, e1: Element, e2: Element) {
        lemma_tree_parts(e1, e2);
        lemma_attribute_tree(e1, e2, XSI_NS@, "nil"@);
    }

    fn to_element(&self, prefix: &str, ns: &str, name: &str) -> (r: Element) {
        let mut e = bare(prefix, ns, name);
        if let Some(b) = self.is_null {
            proof {
                reveal_strlit("true");
                reveal_strlit("false");
            }
            let value = if b {
                String::from_str("true")
            } else {
                String::from_str("false")
            };
            assert(value@ =~= bool_text(b));
            e.attributes.push(
                Attribute {
                    prefix: String::from_str("xsi"),
                    namespace: String::from_str(XSI_NS),
                    name: String::from_str("nil"),
                    value,
                },
            );
            assert(e.attributes@.drop_last() =~= Seq::<Attribute>::empty());
            assert(attribute_value(e.attributes@.drop_last(), XSI_NS@, "nil"@) is None);
        }
        if let Some(d) = &self.value {
            e.text = d.to_string();
        }
        e
    }

    fn from_element(e: &Element) -> (r: Result<Self, DecodeError>) {
        ClientLastUpdate::read(e)
    }
}

impl ClientLastUpdate {
    /// Reads the nil marker and the date-time. A nil marker other than
    /// `true` or `false` is a bad value of `nil`; a text that is not a
    /// date-time is a bad value of `lastUpdate`, with the text.
    pub fn read(e: &Element) -> (r: Result<ClientLastUpdate, DecodeError>)
        ensures
            r matches Ok(v) ==> ClientLastUpdate::decodes(*e, v),
            forall|v: ClientLastUpdate| XmlMessage::wf(&v) && #[trigger] v.encodes(*e) ==> (r matches Ok(w) && w.same(&v)),
            attribute_value(e.attributes@, XSI_NS@, "nil"@) matches Some(s) ==> (!(s@ == bool_text(true)
                || s@ == bool_text(false)) ==> (r matches Err(x) && x is BadValue && (x->field)@ == "nil"@
                && (x->text)@ == s@)),
            nil_accepted(attribute_value(e.attributes@, XSI_NS@, "nil"@)) && e.text@.len() > 0
                && rfc3339_reading(with_timezone(e.text@)) is None ==> (r matches Err(x) && x is BadValue
                && (x->field)@ == "lastUpdate"@ && (x->text)@ == e.text@),
    {
        proof {
            reveal_strlit("true");
            reveal_strlit("false");
            assert("true"@ =~= bool_text(true));
            assert("false"@ =~= bool_text(false));
        }
        let is_null = match find_attribute(e, XSI_NS, "nil") {
            None => None,
            Some(s) => {
                if crate::markup::str_eq(s.as_str(), "true") {
                    Some(true)
                } else if crate::markup::str_eq(s.as_str(), "false") {
                    Some(false)
                } else {
                    proof {
                        reveal_strlit("nil");
                    }
                    return Err(DecodeError::BadValue { field: String::from_str("nil"), text: s });
                }
            },
        };
        let value = if e.text.as_str().unicode_len() == 0 {
            None
        } else {
            match DateTime::from_str(e.text.as_str()) {
                Ok(d) => Some(d),
                Err(_) => {
                    proof {
                        reveal_strlit("lastUpdate");
                    }
                    return Err(DecodeError::BadValue { field: String::from_str("lastUpdate"), text: e.text.clone() });
                },
            }
        };
        Ok(ClientLastUpdate { is_null, value })
    }
}

/// The body of a policy request.
#[derive(Debug)]
pub struct GetPoliciesRequestBody {
    pub get_policies: GetPolicies,
}

impl XmlMessage for GetPoliciesRequestBody {
    open spec fn wf(&self) -> bool {
        self.get_policies.wf()
    }

    open spec fn encodes(&self, e: Element) -> bool {
        optional_message_written(e, XCEP_NS@, "GetPolicies"@, Some(self.get_policies))
    }

    open spec fn decodes(e: Element, v: Self) -> bool {
        optional_message_read(e, XCEP_NS@, "GetPolicies"@, Some(v.get_policies))
    }

    open spec fn same(&self, other: &Self) -> bool {
        self.get_policies.same(&other.get_policies)
    }

    proof fn lemma_encodes_tree(&self, e1: Element, e2: Element) {
        lemma_same_tree_children(e1, e2, XCEP_NS@);
        lemma_message_tree(e1, e2, XCEP_NS@, "GetPolicies"@, Some(self.get_policies));
    }

    fn to_element(&self, prefix: &str, ns: &str, name: &str) -> (r: Element) {
        proof {
            reveal_strlit("GetPolicies");
            assert("GetPolicies"@.len() == 11);
        }
        let mut e = bare(prefix, ns, name);
        push_field(&mut e, self.get_policies.to_element("xcep", XCEP_NS, "GetPolicies"));
        e
    }

    fn from_element(e: &Element) -> (r: Result<Self, DecodeError>) {
        proof {
            reveal_strlit("GetPolicies");
            assert("GetPolicies"@.len() == 11);
        }
        let get_policies = read_message::<GetPolicies>(e, XCEP_NS, "GetPolicies")?;
        Ok(GetPoliciesRequestBody { get_policies })
    }
}

/// The `GetPolicies` operation: the client that asks.
#[derive(Debug)]
pub struct GetPolicies {
    pub client: Client,
}

impl XmlMessage for GetPolicies {
    open spec fn wf(&self) -> bool {
        self.client.wf()
    }

    open spec fn encodes(&self, e: Element) -> bool {
        optional_message_written(e, XCEP_NS@, "client"@, Some(self.client))
    }

    open spec fn decodes(e: Element, v: Self) -> bool {
        optional_message_read(e, XCEP_NS@, "client"@, Some(v.client))
    }

    open spec fn same(&self, other: &Self) -> bool {
        self.client.same(&other.client)
    }

    proof fn lemma_encodes_tree(&self, e1: Element, e2: Element) {
        lemma_same_tree_children(e1, e2, XCEP_NS@);
        lemma_message_tree(e1, e2, XCEP_NS@, "client"@, Some(self.client));
    }

    fn to_element(&self, prefix: &str, ns: &str, name: &str) -> (r: Element) {
        proof {
            reveal_strlit("client");
            assert("client"@.len() == 6);
        }
        let mut e = bare(prefix, ns, name);
        push_field(&mut e, self.client.to_element("xcep", XCEP_NS, "client"));
        e
    }

    fn from_element(e: &Element) -> (r: Result<Self, DecodeError>) {
        proof {
            reveal_strlit("client");
            assert("client"@.len() == 6);
        }
        let client = read_message::<Client>(e, XCEP_NS, "client")?;
        Ok(GetPolicies { client })
    }
}

/// The answer to `GetPolicies`: the policies, their authorities and their object identifiers.
#[derive(Debug)]
pub struct GetPoliciesResponse {
    pub response: Option<Response>,
    pub c_as: Option<Cacollection>,
    pub o_i_ds: Option<Oidcollection>,
}

impl XmlMessage for GetPoliciesResponse {
    open spec fn wf(&self) -> bool {
        &&& optional_wf(self.response)
        &&& optional_wf(self.c_as)
        &&& optional_wf(self.o_i_ds)
    }

    open spec fn encodes(&self, e: Element) -> bool {
        &&& optional_message_written(e, XCEP_NS@, "response"@, self.response)
        &&& optional_message_written(e, XCEP_NS@, "cAs"@, self.c_as)
        &&& optional_message_written(e, XCEP_NS@, "oIDs"@, self.o_i_ds)
    }

    open spec fn decodes(e: Element, v: Self) -> bool {
        &&& optional_message_read(e, XCEP_NS@, "response"@, v.response)
        &&& optional_message_read(e, XCEP_NS@, "cAs"@, v.c_as)
        &&& optional_message_read(e, XCEP_NS@, "oIDs"@, v.o_i_ds)
    }

    open spec fn same(&self, other: &Self) -> bool {
        &&& optional_same(self.response, other.response)
        &&& optional_same(self.c_as, other.c_as)
        &&& optional_same(self.o_i_ds, other.o_i_ds)
    }

    proof fn lemma_encodes_tree(&self, e1: Element, e2: Element) {
        lemma_same_tree_children(e1, e2, XCEP_NS@);
        lemma_message_tree(e1, e2, XCEP_NS@, "response"@, self.response);
        lemma_message_tree(e1, e2, XCEP_NS@, "cAs"@, self.c_as);
        lemma_message_tree(e1, e2, XCEP_NS@, "oIDs"@, self.o_i_ds);
    }

    fn to_element(&self, prefix: &str, ns: &str, name: &str) -> (r: Element) {
        proof {
            reveal_strlit("response");
            reveal_strlit("cAs");
            reveal_strlit("oIDs");
            assert("response"@.len() == 8);
            assert("cAs"@.len() == 3);
            assert("oIDs"@.len() == 4);
        }
        let mut e = bare(prefix, ns, name);
        if let Some(x) = &self.response {
            push_field(&mut e, x.to_element("xcep", XCEP_NS, "response"));
        }
        if let Some(x) = &self.c_as {
            push_field(&mut e, x.to_element("xcep", XCEP_NS, "cAs"));
        }
        if let Some(x) = &self.o_i_ds {
            push_field(&mut e, x.to_element("xcep", XCEP_NS, "oIDs"));
        }
        e
    }

    fn from_element(e: &Element) -> (r: Result<Self, DecodeError>) {
        proof {
            reveal_strlit("response");
            reveal_strlit("cAs");
            reveal_strlit("oIDs");
            assert("response"@.len() == 8);
            assert("cAs"@.len() == 3);
            assert("oIDs"@.len() == 4);
        }
        let response = read_optional_message::<Response>(e, XCEP_NS, "response")?;
        let c_as = read_optional_message::<Cacollection>(e, XCEP_NS, "cAs")?;
        let o_i_ds = read_optional_message::<Oidcollection>(e, XCEP_NS, "oIDs")?;
        Ok(GetPoliciesResponse { response, c_as, o_i_ds })
    }
}

/// The attributes of a certificate enrollment policy.
#[derive(Debug)]
pub struct Attributes {
    pub common_name: String,
    pub policy_schema: u32,
    pub certificate_validity: CertificateValidity,
    pub permission: EnrollmentPermission,
    pub private_key_attributes: Vec<PrivateKeyAttributes>,
    pub revision: Revision,
    pub superseded_policies: Option<SupersededPolicies>,
    pub private_key_flags: Option<u32>,
    pub subject_name_flags: Option<u32>,
    pub enrollment_flags: Option<u32>,
    pub general_flags: Option<u32>,
    pub hash_algorithm_oid_reference: Option<i32>,
    pub r_a_requirements: Option<Rarequirements>,
    pub key_archival_attributes: Vec<KeyArchivalAttributes>,
    pub extensions: Option<ExtensionCollection>,
}

impl XmlMessage for Attributes {
    open spec fn wf(&self) -> bool {
        &&& self.certificate_validity.wf()
        &&& self.permission.wf()
        &&& list_wf(self.private_key_attributes@)
        &&& self.revision.wf()
        &&& optional_wf(self.superseded_policies)
        &&& optional_wf(self.r_a_requirements)
        &&& list_wf(self.key_archival_attributes@)
        &&& optional_wf(self.extensions)
    }

    open spec fn encodes(&self, e: Element) -> bool {
        &&& text_field(e, XCEP_NS@, "commonName"@, self.common_name)
        &&& scalar_written(e, XCEP_NS@, "policySchema"@, scalar_text(u32_kind(), self.policy_schema as int))
        &&& optional_message_written(e, XCEP_NS@, "certificateValidity"@, Some(self.certificate_validity))
        &&& optional_message_written(e, XCEP_NS@, "permission"@, Some(self.permission))
        &&& list_written(e, XCEP_NS@, "privateKeyAttributes"@, self.private_key_attributes@)
        &&& optional_message_written(e, XCEP_NS@, "revision"@, Some(self.revision))
        &&& optional_message_written(e, XCEP_NS@, "supersededPolicies"@, self.superseded_policies)
        &&& optional_scalar_written(e, XCEP_NS@, "privateKeyFlags"@, match self.private_key_flags { Some(x) => Some(scalar_text(u32_kind(), x as int)), None => None })
        &&& optional_scalar_written(e, XCEP_NS@, "subjectNameFlags"@, match self.subject_name_flags { Some(x) => Some(scalar_text(u32_kind(), x as int)), None => None })
        &&& optional_scalar_written(e, XCEP_NS@, "enrollmentFlags"@, match self.enrollment_flags { Some(x) => Some(scalar_text(u32_kind(), x as int)), None => None })
        &&& optional_scalar_written(e, XCEP_NS@, "generalFlags"@, match self.general_flags { Some(x) => Some(scalar_text(u32_kind(), x as int)), None => None })
        &&& optional_scalar_written(e, XCEP_NS@, "hashAlgorithmOIDReference"@, match self.hash_algorithm_oid_reference { Some(x) => Some(scalar_text(i32_kind(), x as int)), None => None })
        &&& optional_message_written(e, XCEP_NS@, "rARequirements"@, self.r_a_requirements)
        &&& list_written(e, XCEP_NS@, "keyArchivalAttributes"@, self.key_archival_attributes@)
        &&& optional_message_written(e, XCEP_NS@, "extensions"@, self.extensions)
    }

    open spec fn decodes(e: Element, v: Self) -> bool {
        &&& text_field(e, XCEP_NS@, "commonName"@, v.common_name)
        &&& scalar_read(e, XCEP_NS@, "policySchema"@, u32_kind(), v.policy_schema as int)
        &&& optional_message_read(e, XCEP_NS@, "certificateValidity"@, Some(v.certificate_validity))
        &&& optional_message_read(e, XCEP_NS@, "permission"@, Some(v.permission))
        &&& list_read(e, XCEP_NS@, "privateKeyAttributes"@, v.private_key_attributes@)
        &&& optional_message_read(e, XCEP_NS@, "revision"@, Some(v.revision))
        &&& optional_message_read(e, XCEP_NS@, "supersededPolicies"@, v.superseded_policies)
        &&& optional_scalar_read(e, XCEP_NS@, "privateKeyFlags"@, u32_kind(), match v.private_key_flags { Some(x) => Some(x as int), None => None })
        &&& optional_scalar_read(e, XCEP_NS@, "subjectNameFlags"@, u32_kind(), match v.subject_name_flags { Some(x) => Some(x as int), None => None })
        &&& optional_scalar_read(e, XCEP_NS@, "enrollmentFlags"@, u32_kind(), match v.enrollment_flags { Some(x) => Some(x as int), None => None })
        &&& optional_scalar_read(e, XCEP_NS@, "generalFlags"@, u32_kind(), match v.general_flags { Some(x) => Some(x as int), None => None })
        &&& optional_scalar_read(e, XCEP_NS@, "hashAlgorithmOIDReference"@, i32_kind(), match v.hash_algorithm_oid_reference { Some(x) => Some(x as int), None => None })
        &&& optional_message_read(e, XCEP_NS@, "rARequirements"@, v.r_a_requirements)
        &&& list_read(e, XCEP_NS@, "keyArchivalAttributes"@, v.key_archival_attributes@)
        &&& optional_message_read(e, XCEP_NS@, "extensions"@, v.extensions)
    }

    open spec fn same(&self, other: &Self) -> bool {
        &&& self.common_name@ == other.common_name@
        &&& self.policy_schema == other.policy_schema
        &&& self.certificate_validity.same(&other.certificate_validity)
        &&& self.permission.same(&other.permission)
        &&& list_same(self.private_key_attributes@, other.private_key_attributes@)
        &&& self.revision.same(&other.revision)
        &&& optional_same(self.superseded_policies, other.superseded_policies)
        &&& self.private_key_flags == other.private_key_flags
        &&& self.subject_name_flags == other.subject_name_flags
        &&& self.enrollment_flags == other.enrollment_flags
        &&& self.general_flags == other.general_flags
        &&& self.hash_algorithm_oid_reference == other.hash_algorithm_oid_reference
        &&& optional_same(self.r_a_requirements, other.r_a_requirements)
        &&& list_same(self.key_archival_attributes@, other.key_archival_attributes@)
        &&& optional_same(self.extensions, other.extensions)
    }

    proof fn lemma_encodes_tree(&self, e1: Element, e2: Element) {
        lemma_same_tree_children(e1, e2, XCEP_NS@);
        lemma_message_tree(e1, e2, XCEP_NS@, "certificateValidity"@, Some(self.certificate_validity));
        lemma_message_tree(e1, e2, XCEP_NS@, "permission"@, Some(self.permission));
        lemma_list_tree(e1, e2, XCEP_NS@, "privateKeyAttributes"@, self.private_key_attributes@);
        lemma_message_tree(e1, e2, XCEP_NS@, "revision"@, Some(self.revision));
        lemma_message_tree(e1, e2, XCEP_NS@, "supersededPolicies"@, self.superseded_policies);
        lemma_message_tree(e1, e2, XCEP_NS@, "rARequirements"@, self.r_a_requirements);
        lemma_list_tree(e1, e2, XCEP_NS@, "keyArchivalAttributes"@, self.key_archival_attributes@);
        lemma_message_tree(e1, e2, XCEP_NS@, "extensions"@, self.extensions);
    }

    #[verifier::rlimit(80)]
    fn to_element(&self, prefix: &str, ns: &str, name: &str) -> (r: Element) {
        proof {
            reveal_strlit("commonName");
            reveal_strlit("policySchema");
            reveal_strlit("certificateValidity");
            reveal_strlit("permission");
            reveal_strlit("privateKeyAttributes");
            reveal_strlit("revision");
            reveal_strlit("supersededPolicies");
            reveal_strlit("privateKeyFlags");
            reveal_strlit("subjectNameFlags");
            reveal_strlit("enrollmentFlags");
            reveal_strlit("generalFlags");
            reveal_strlit("hashAlgorithmOIDReference");
            reveal_strlit("rARequirements");
            reveal_strlit("keyArchivalAttributes");
            reveal_strlit("extensions");
            assert("commonName"@.len() == 10);
            assert("policySchema"@.len() == 12);
            assert("certificateValidity"@.len() == 19);
            assert("permission"@.len() == 10);
            assert("privateKeyAttributes"@.len() == 20);
            assert("revision"@.len() == 8);
            assert("supersededPolicies"@.len() == 18);
            assert("privateKeyFlags"@.len() == 15);
            assert("subjectNameFlags"@.len() == 16);
            assert("enrollmentFlags"@.len() == 15);
            assert("generalFlags"@.len() == 12);
            assert("hashAlgorithmOIDReference"@.len() == 25);
            assert("rARequirements"@.len() == 14);
            assert("keyArchivalAttributes"@.len() == 21);
            assert("extensions"@.len() == 10);
            assert("commonName"@[0] != "permission"@[0]);
            assert("commonName"@[0] != "extensions"@[0]);
            assert("policySchema"@[0] != "generalFlags"@[0]);
            assert("permission"@[0] != "extensions"@[0]);
            assert("privateKeyFlags"@[0] != "enrollmentFlags"@[0]);
        }
        let mut e = bare(prefix, ns, name);
        push_field(&mut e, leaf("xcep", XCEP_NS, "commonName", self.common_name.clone()));
        push_field(&mut e, int_leaf("xcep", XCEP_NS, "policySchema", self.policy_schema as i64));
        push_field(&mut e, self.certificate_validity.to_element("xcep", XCEP_NS, "certificateValidity"));
        push_field(&mut e, self.permission.to_element("xcep", XCEP_NS, "permission"));
        push_message_list(&mut e, "xcep", XCEP_NS, "privateKeyAttributes", &self.private_key_attributes);
        push_field(&mut e, self.revision.to_element("xcep", XCEP_NS, "revision"));
        if let Some(x) = &self.superseded_policies {
            push_field(&mut e, x.to_element("xcep", XCEP_NS, "supersededPolicies"));
        }
        if let Some(x) = &self.private_key_flags {
            push_field(&mut e, int_leaf("xcep", XCEP_NS, "privateKeyFlags", *x as i64));
        }
        if let Some(x) = &self.subject_name_flags {
            push_field(&mut e, int_leaf("xcep", XCEP_NS, "subjectNameFlags", *x as i64));
        }
        if let Some(x) = &self.enrollment_flags {
            push_field(&mut e, int_leaf("xcep", XCEP_NS, "enrollmentFlags", *x as i64));
        }
        if let Some(x) = &self.general_flags {
            push_field(&mut e, int_leaf("xcep", XCEP_NS, "generalFlags", *x as i64));
        }
        if let Some(x) = &self.hash_algorithm_oid_reference {
            push_field(&mut e, int_leaf("xcep", XCEP_NS, "hashAlgorithmOIDReference", *x as i64));
        }
        if let Some(x) = &self.r_a_requirements {
            push_field(&mut e, x.to_element("xcep", XCEP_NS, "rARequirements"));
        }
        push_message_list(&mut e, "xcep", XCEP_NS, "keyArchivalAttributes", &self.key_archival_attributes);
        if let Some(x) = &self.extensions {
            push_field(&mut e, x.to_element("xcep", XCEP_NS, "extensions"));
        }
        e
    }

    fn from_element(e: &Element) -> (r: Result<Self, DecodeError>) {
        proof {
            reveal_strlit("commonName");
            reveal_strlit("policySchema");
            reveal_strlit("certificateValidity");
            reveal_strlit("permission");
            reveal_strlit("privateKeyAttributes");
            reveal_strlit("revision");
            reveal_strlit("supersededPolicies");
            reveal_strlit("privateKeyFlags");
            reveal_strlit("subjectNameFlags");
            reveal_strlit("enrollmentFlags");
            reveal_strlit("generalFlags");
            reveal_strlit("hashAlgorithmOIDReference");
            reveal_strlit("rARequirements");
            reveal_strlit("keyArchivalAttributes");
            reveal_strlit("extensions");
            assert("commonName"@.len() == 10);
            assert("policySchema"@.len() == 12);
            assert("certificateValidity"@.len() == 19);
            assert("permission"@.len() == 10);
            assert("privateKeyAttributes"@.len() == 20);
            assert("revision"@.len() == 8);
            assert("supersededPolicies"@.len() == 18);
            assert("privateKeyFlags"@.len() == 15);
            assert("subjectNameFlags"@.len() == 16);
            assert("enrollmentFlags"@.len() == 15);
            assert("generalFlags"@.len() == 12);
            assert("hashAlgorithmOIDReference"@.len() == 25);
            assert("rARequirements"@.len() == 14);
            assert("keyArchivalAttributes"@.len() == 21);
            assert("extensions"@.len() == 10);
            assert("commonName"@[0] != "permission"@[0]);
            assert("commonName"@[0] != "extensions"@[0]);
            assert("policySchema"@[0] != "generalFlags"@[0]);
            assert("permission"@[0] != "extensions"@[0]);
            assert("privateKeyFlags"@[0] != "enrollmentFlags"@[0]);
        }
        let common_name = required_text(e, XCEP_NS, "commonName")?;
        let policy_schema = required(read_u32_field(e, XCEP_NS, "policySchema")?, "policySchema")?;
        let certificate_validity = read_message::<CertificateValidity>(e, XCEP_NS, "certificateValidity")?;
        let permission = read_message::<EnrollmentPermission>(e, XCEP_NS, "permission")?;
        let private_key_attributes = read_message_list::<PrivateKeyAttributes>(e, XCEP_NS, "privateKeyAttributes")?;
        let revision = read_message::<Revision>(e, XCEP_NS, "revision")?;
        let superseded_policies = read_optional_message::<SupersededPolicies>(e, XCEP_NS, "supersededPolicies")?;
        let private_key_flags = read_u32_field(e, XCEP_NS, "privateKeyFlags")?;
        let subject_name_flags = read_u32_field(e, XCEP_NS, "subjectNameFlags")?;
        let enrollment_flags = read_u32_field(e, XCEP_NS, "enrollmentFlags")?;
        let general_flags = read_u32_field(e, XCEP_NS, "generalFlags")?;
        let hash_algorithm_oid_reference = read_i32_field(e, XCEP_NS, "hashAlgorithmOIDReference")?;
        let r_a_requirements = read_optional_message::<Rarequirements>(e, XCEP_NS, "rARequirements")?;
        let key_archival_attributes = read_message_list::<KeyArchivalAttributes>(e, XCEP_NS, "keyArchivalAttributes")?;
        let extensions = read_optional_message::<ExtensionCollection>(e, XCEP_NS, "extensions")?;
        Ok(Attributes { common_name, policy_schema, certificate_validity, permission, private_key_attributes, revision, superseded_policies, private_key_flags, subject_name_flags, enrollment_flags, general_flags, hash_algorithm_oid_reference, r_a_requirements, key_archival_attributes, extensions })
    }
}

/// A certification authority.
#[derive(Debug)]
pub struct Ca {
    pub uris: Cauricollection,
    pub certificate: String,
    pub enroll_permission: bool,
    pub c_a_reference_id: i32,
}

impl XmlMessage for Ca {
    open spec fn wf(&self) -> bool {
        self.uris.wf()
    }

    open spec fn encodes(&self, e: Element) -> bool {
        &&& optional_message_written(e, XCEP_NS@, "uris"@, Some(self.uris))
        &&& text_field(e, XCEP_NS@, "certificate"@, self.certificate)
        &&& scalar_written(e, XCEP_NS@, "enrollPermission"@, scalar_text(ScalarKind::Boolean, bool_int(self.enroll_permission)))
        &&& scalar_written(e, XCEP_NS@, "cAReferenceID"@, scalar_text(i32_kind(), self.c_a_reference_id as int))
    }

    open spec fn decodes(e: Element, v: Self) -> bool {
        &&& optional_message_read(e, XCEP_NS@, "uris"@, Some(v.uris))
        &&& text_field(e, XCEP_NS@, "certificate"@, v.certificate)
        &&& scalar_read(e, XCEP_NS@, "enrollPermission"@, ScalarKind::Boolean, bool_int(v.enroll_permission))
        &&& scalar_read(e, XCEP_NS@, "cAReferenceID"@, i32_kind(), v.c_a_reference_id as int)
    }

    open spec fn same(&self, other: &Self) -> bool {
        &&& self.uris.same(&other.uris)
        &&& self.certificate@ == other.certificate@
        &&& self.enroll_permission == other.enroll_permission
        &&& self.c_a_reference_id == other.c_a_reference_id
    }

    proof fn lemma_encodes_tree(&self, e1: Element, e2: Element) {
        lemma_same_tree_children(e1, e2, XCEP_NS@);
        lemma_message_tree(e1, e2, XCEP_NS@, "uris"@, Some(self.uris));
    }

    fn to_element(&self, prefix: &str, ns: &str, name: &str) -> (r: Element) {
        proof {
            reveal_strlit("uris");
            reveal_strlit("certificate");
            reveal_strlit("enrollPermission");
            reveal_strlit("cAReferenceID");
            assert("uris"@.len() == 4);
            assert("certificate"@.len() == 11);
            assert("enrollPermission"@.len() == 16);
            assert("cAReferenceID"@.len() == 13);
        }
        let mut e = bare(prefix, ns, name);
        push_field(&mut e, self.uris.to_element("xcep", XCEP_NS, "uris"));
        push_field(&mut e, leaf("xcep", XCEP_NS, "certificate", self.certificate.clone()));
        push_field(&mut e, bool_leaf("xcep", XCEP_NS, "enrollPermission", self.enroll_permission));
        push_field(&mut e, int_leaf("xcep", XCEP_NS, "cAReferenceID", self.c_a_reference_id as i64));
        e
    }

    fn from_element(e: &Element) -> (r: Result<Self, DecodeError>) {
        proof {
            reveal_strlit("uris");
            reveal_strlit("certificate");
            reveal_strlit("enrollPermission");
            reveal_strlit("cAReferenceID");
            assert("uris"@.len() == 4);
            assert("certificate"@.len() == 11);
            assert("enrollPermission"@.len() == 16);
            assert("cAReferenceID"@.len() == 13);
        }
        let uris = read_message::<Cauricollection>(e, XCEP_NS, "uris")?;
        let certificate = required_text(e, XCEP_NS, "certificate")?;
        let enroll_permission = required(read_bool_field(e, XCEP_NS, "enrollPermission")?, "enrollPermission")?;
        let c_a_reference_id = required(read_i32_field(e, XCEP_NS, "cAReferenceID")?, "cAReferenceID")?;
        Ok(Ca { uris, certificate, enroll_permission, c_a_reference_id })
    }
}

/// The certification authorities of a response.
#[derive(Debug)]
pub struct Cacollection {
    pub c_a: Vec<Ca>,
}

impl XmlMessage for Cacollection {
    open spec fn wf(&self) -> bool {
        list_wf(self.c_a@)
    }

    open spec fn encodes(&self, e: Element) -> bool {
        list_written(e, XCEP_NS@, "cA"@, self.c_a@)
    }

    open spec fn decodes(e: Element, v: Self) -> bool {
        list_read(e, XCEP_NS@, "cA"@, v.c_a@)
    }

    open spec fn same(&self, other: &Self) -> bool {
        list_same(self.c_a@, other.c_a@)
    }

    proof fn lemma_encodes_tree(&self, e1: Element, e2: Element) {
        lemma_same_tree_children(e1, e2, XCEP_NS@);
        lemma_list_tree(e1, e2, XCEP_NS@, "cA"@, self.c_a@);
    }

    fn to_element(&self, prefix: &str, ns: &str, name: &str) -> (r: Element) {
        proof {
            reveal_strlit("cA");
            assert("cA"@.len() == 2);
        }
        let mut e = bare(prefix, ns, name);
        push_message_list(&mut e, "xcep", XCEP_NS, "cA", &self.c_a);
        e
    }

    fn from_element(e: &Element) -> (r: Result<Self, DecodeError>) {
        proof {
            reveal_strlit("cA");
            assert("cA"@.len() == 2);
        }
        let c_a = read_message_list::<Ca>(e, XCEP_NS, "cA")?;
        Ok(Cacollection { c_a })
    }
}

/// References to certification authorities.
#[derive(Debug)]
pub struct CareferenceCollection {
    pub c_a_reference: Vec<i32>,
}

impl XmlMessage for CareferenceCollection {
    open spec fn wf(&self) -> bool {
        true
    }

    open spec fn encodes(&self, e: Element) -> bool {
        int_list_written(e, XCEP_NS@, "cAReference"@, self.c_a_reference@)
    }

    open spec fn decodes(e: Element, v: Self) -> bool {
        int_list_read(e, XCEP_NS@, "cAReference"@, v.c_a_reference@)
    }

    open spec fn same(&self, other: &Self) -> bool {
        self.c_a_reference@ == other.c_a_reference@
    }

    proof fn lemma_encodes_tree(&self, e1: Element, e2: Element) {
        lemma_same_tree_children(e1, e2, XCEP_NS@);
        lemma_texts_tree(e1, e2, XCEP_NS@, "cAReference"@, Seq::empty(), self.c_a_reference@);
    }

    fn to_element(&self, prefix: &str, ns: &str, name: &str) -> (r: Element) {
        proof {
            reveal_strlit("cAReference");
            assert("cAReference"@.len() == 11);
        }
        let mut e = bare(prefix, ns, name);
        push_int_list(&mut e, "xcep", XCEP_NS, "cAReference", &self.c_a_reference);
        e
    }

    fn from_element(e: &Element) -> (r: Result<Self, DecodeError>) {
        proof {
            reveal_strlit("cAReference");
            assert("cAReference"@.len() == 11);
        }
        let c_a_reference = read_int_list(e, XCEP_NS, "cAReference")?;
        Ok(CareferenceCollection { c_a_reference })
    }
}

/// An address of a certification authority.
#[derive(Debug)]
pub struct Cauri {
    pub client_authentication: u32,
    pub uri: String,
    pub priority: Option<u32>,
    pub renewal_only: bool,
}

impl XmlMessage for Cauri {
    open spec fn wf(&self) -> bool {
        true
    }

    open spec fn encodes(&self, e: Element) -> bool {
        &&& scalar_written(e, XCEP_NS@, "clientAuthentication"@, scalar_text(u32_kind(), self.client_authentication as int))
        &&& text_field(e, XCEP_NS@, "uri"@, self.uri)
        &&& optional_scalar_written(e, XCEP_NS@, "priority"@, match self.priority { Some(x) => Some(scalar_text(u32_kind(), x as int)), None => None })
        &&& scalar_written(e, XCEP_NS@, "renewalOnly"@, scalar_text(ScalarKind::Boolean, bool_int(self.renewal_only)))
    }

    open spec fn decodes(e: Element, v: Self) -> bool {
        &&& scalar_read(e, XCEP_NS@, "clientAuthentication"@, u32_kind(), v.client_authentication as int)
        &&& text_field(e, XCEP_NS@, "uri"@, v.uri)
        &&& optional_scalar_read(e, XCEP_NS@, "priority"@, u32_kind(), match v.priority { Some(x) => Some(x as int), None => None })
        &&& scalar_read(e, XCEP_NS@, "renewalOnly"@, ScalarKind::Boolean, bool_int(v.renewal_only))
    }

    open spec fn same(&self, other: &Self) -> bool {
        &&& self.client_authentication == other.client_authentication
        &&& self.uri@ == other.uri@
        &&& self.priority == other.priority
        &&& self.renewal_only == other.renewal_only
    }

    proof fn lemma_encodes_tree(&self, e1: Element, e2: Element) {
        lemma_same_tree_children(e1, e2, XCEP_NS@);
    }

    fn to_element(&self, prefix: &str, ns: &str, name: &str) -> (r: Element) {
        proof {
            reveal_strlit("clientAuthentication");
            reveal_strlit("uri");
            reveal_strlit("priority");
            reveal_strlit("renewalOnly");
            assert("clientAuthentication"@.len() == 20);
            assert("uri"@.len() == 3);
            assert("priority"@.len() == 8);
            assert("renewalOnly"@.len() == 11);
        }
        let mut e = bare(prefix, ns, name);
        push_field(&mut e, int_leaf("xcep", XCEP_NS, "clientAuthentication", self.client_authentication as i64));
        push_field(&mut e, leaf("xcep", XCEP_NS, "uri", self.uri.clone()));
        if let Some(x) = &self.priority {
            push_field(&mut e, int_leaf("xcep", XCEP_NS, "priority", *x as i64));
        }
        push_field(&mut e, bool_leaf("xcep", XCEP_NS, "renewalOnly", self.renewal_only));
        e
    }

    fn from_element(e: &Element) -> (r: Result<Self, DecodeError>) {
        proof {
            reveal_strlit("clientAuthentication");
            reveal_strlit("uri");
            reveal_strlit("priority");
            reveal_strlit("renewalOnly");
            assert("clientAuthentication"@.len() == 20);
            assert("uri"@.len() == 3);
            assert("priority"@.len() == 8);
            assert("renewalOnly"@.len() == 11);
        }
        let client_authentication = required(read_u32_field(e, XCEP_NS, "clientAuthentication")?, "clientAuthentication")?;
        let uri = required_text(e, XCEP_NS, "uri")?;
        let priority = read_u32_field(e, XCEP_NS, "priority")?;
        let renewal_only = required(read_bool_field(e, XCEP_NS, "renewalOnly")?, "renewalOnly")?;
        Ok(Cauri { client_authentication, uri, priority, renewal_only })
    }
}

/// The addresses of a certification authority.
#[derive(Debug)]
pub struct Cauricollection {
    pub c_auri: Vec<Cauri>,
}

impl XmlMessage for Cauricollection {
    open spec fn wf(&self) -> bool {
        list_wf(self.c_auri@)
    }

    open spec fn encodes(&self, e: Element) -> bool {
        list_written(e, XCEP_NS@, "cAURI"@, self.c_auri@)
    }

    open spec fn decodes(e: Element, v: Self) -> bool {
        list_read(e, XCEP_NS@, "cAURI"@, v.c_auri@)
    }

    open spec fn same(&self, other: &Self) -> bool {
        list_same(self.c_auri@, other.c_auri@)
    }

    proof fn lemma_encodes_tree(&self, e1: Element, e2: Element) {
        lemma_same_tree_children(e1, e2, XCEP_NS@);
        lemma_list_tree(e1, e2, XCEP_NS@, "cAURI"@, self.c_auri@);
    }

    fn to_element(&self, prefix: &str, ns: &str, name: &str) -> (r: Element) {
        proof {
            reveal_strlit("cAURI");
            assert("cAURI"@.len() == 5);
        }
        let mut e = bare(prefix, ns, name);
        push_message_list(&mut e, "xcep", XCEP_NS, "cAURI", &self.c_auri);
        e
    }

    fn from_element(e: &Element) -> (r: Result<Self, DecodeError>) {
        proof {
            reveal_strlit("cAURI");
            assert("cAURI"@.len() == 5);
        }
        let c_auri = read_message_list::<Cauri>(e, XCEP_NS, "cAURI")?;
        Ok(Cauricollection { c_auri })
    }
}

/// A certificate enrollment policy.
#[derive(Debug)]
pub struct CertificateEnrollmentPolicy {
    pub policy_oid_reference: i32,
    pub c_as: Option<CareferenceCollection>,
    pub attributes: Attributes,
}

impl XmlMessage for CertificateEnrollmentPolicy {
    open spec fn wf(&self) -> bool {
        &&& optional_wf(self.c_as)
        &&& self.attributes.wf()
    }

    open spec fn encodes(&self, e: Element) -> bool {
        &&& scalar_written(e, XCEP_NS@, "policyOIDReference"@, scalar_text(i32_kind(), self.policy_oid_reference as int))
        &&& optional_message_written(e, XCEP_NS@, "cAs"@, self.c_as)
        &&& optional_message_written(e, XCEP_NS@, "attributes"@, Some(self.attributes))
    }

    open spec fn decodes(e: Element, v: Self) -> bool {
        &&& scalar_read(e, XCEP_NS@, "policyOIDReference"@, i32_kind(), v.policy_oid_reference as int)
        &&& optional_message_read(e, XCEP_NS@, "cAs"@, v.c_as)
        &&& optional_message_read(e, XCEP_NS@, "attributes"@, Some(v.attributes))
    }

    open spec fn same(&self, other: &Self) -> bool {
        &&& self.policy_oid_reference == other.policy_oid_reference
        &&& optional_same(self.c_as, other.c_as)
        &&& self.attributes.same(&other.attributes)
    }

    proof fn lemma_encodes_tree(&self, e1: Element, e2: Element) {
        lemma_same_tree_children(e1, e2, XCEP_NS@);
        lemma_message_tree(e1, e2, XCEP_NS@, "cAs"@, self.c_as);
        lemma_message_tree(e1, e2, XCEP_NS@, "attributes"@, Some(self.attributes));
    }

    fn to_element(&self, prefix: &str, ns: &str, name: &str) -> (r: Element) {
        proof {
            reveal_strlit("policyOIDReference");
            reveal_strlit("cAs");
            reveal_strlit("attributes");
            assert("policyOIDReference"@.len() == 18);
            assert("cAs"@.len() == 3);
            assert("attributes"@.len() == 10);
        }
        let mut e = bare(prefix, ns, name);
        push_field(&mut e, int_leaf("xcep", XCEP_NS, "policyOIDReference", self.policy_oid_reference as i64));
        if let Some(x) = &self.c_as {
            push_field(&mut e, x.to_element("xcep", XCEP_NS, "cAs"));
        }
        push_field(&mut e, self.attributes.to_element("xcep", XCEP_NS, "attributes"));
        e
    }

    fn from_element(e: &Element) -> (r: Result<Self, DecodeError>) {
        proof {
            reveal_strlit("policyOIDReference");
            reveal_strlit("cAs");
            reveal_strlit("attributes");
            assert("policyOIDReference"@.len() == 18);
            assert("cAs"@.len() == 3);
            assert("attributes"@.len() == 10);
        }
        let policy_oid_reference = required(read_i32_field(e, XCEP_NS, "policyOIDReference")?, "policyOIDReference")?;
        let c_as = read_optional_message::<CareferenceCollection>(e, XCEP_NS, "cAs")?;
        let attributes = read_message::<Attributes>(e, XCEP_NS, "attributes")?;
        Ok(CertificateEnrollmentPolicy { policy_oid_reference, c_as, attributes })
    }
}

/// How long a certificate is valid, and when it is renewed.
#[derive(Debug)]
pub struct CertificateValidity {
    pub validity_period_seconds: u64,
    pub renewal_period_seconds: u64,
}

impl XmlMessage for CertificateValidity {
    open spec fn wf(&self) -> bool {
        true
    }

    open spec fn encodes(&self, e: Element) -> bool {
        &&& scalar_written(e, XCEP_NS@, "validityPeriodSeconds"@, scalar_text(u64_kind(), self.validity_period_seconds as int))
        &&& scalar_written(e, XCEP_NS@, "renewalPeriodSeconds"@, scalar_text(u64_kind(), self.renewal_period_seconds as int))
    }

    open spec fn decodes(e: Element, v: Self) -> bool {
        &&& scalar_read(e, XCEP_NS@, "validityPeriodSeconds"@, u64_kind(), v.validity_period_seconds as int)
        &&& scalar_read(e, XCEP_NS@, "renewalPeriodSeconds"@, u64_kind(), v.renewal_period_seconds as int)
    }

    open spec fn same(&self, other: &Self) -> bool {
        &&& self.validity_period_seconds == other.validity_period_seconds
        &&& self.renewal_period_seconds == other.renewal_period_seconds
    }

    proof fn lemma_encodes_tree(&self, e1: Element, e2: Element) {
        lemma_same_tree_children(e1, e2, XCEP_NS@);
    }

    fn to_element(&self, prefix: &str, ns: &str, name: &str) -> (r: Element) {
        proof {
            reveal_strlit("validityPeriodSeconds");
            reveal_strlit("renewalPeriodSeconds");
            assert("validityPeriodSeconds"@.len() == 21);
            assert("renewalPeriodSeconds"@.len() == 20);
        }
        let mut e = bare(prefix, ns, name);
        push_field(&mut e, leaf("xcep", XCEP_NS, "validityPeriodSeconds", u64_string(self.validity_period_seconds)));
        push_field(&mut e, leaf("xcep", XCEP_NS, "renewalPeriodSeconds", u64_string(self.renewal_period_seconds)));
        e
    }

    fn from_element(e: &Element) -> (r: Result<Self, DecodeError>) {
        proof {
            reveal_strlit("validityPeriodSeconds");
            reveal_strlit("renewalPeriodSeconds");
            assert("validityPeriodSeconds"@.len() == 21);
            assert("renewalPeriodSeconds"@.len() == 20);
        }
        let validity_period_seconds = required(read_u64_field(e, XCEP_NS, "validityPeriodSeconds")?, "validityPeriodSeconds")?;
        let renewal_period_seconds = required(read_u64_field(e, XCEP_NS, "renewalPeriodSeconds")?, "renewalPeriodSeconds")?;
        Ok(CertificateValidity { validity_period_seconds, renewal_period_seconds })
    }
}

/// The client that asks for policies.
#[derive(Debug)]
pub struct Client {
    pub client_last_update: ClientLastUpdate,
}

impl XmlMessage for Client {
    open spec fn wf(&self) -> bool {
        self.client_last_update.wf()
    }

    open spec fn encodes(&self, e: Element) -> bool {
        optional_message_written(e, XCEP_NS@, "lastUpdate"@, Some(self.client_last_update))
    }

    open spec fn decodes(e: Element, v: Self) -> bool {
        optional_message_read(e, XCEP_NS@, "lastUpdate"@, Some(v.client_last_update))
    }

    open spec fn same(&self, other: &Self) -> bool {
        self.client_last_update.same(&other.client_last_update)
    }

    proof fn lemma_encodes_tree(&self, e1: Element, e2: Element) {
        lemma_same_tree_children(e1, e2, XCEP_NS@);
        lemma_message_tree(e1, e2, XCEP_NS@, "lastUpdate"@, Some(self.client_last_update));
    }

    fn to_element(&self, prefix: &str, ns: &str, name: &str) -> (r: Element) {
        proof {
            reveal_strlit("lastUpdate");
            assert("lastUpdate"@.len() == 10);
        }
        let mut e = bare(prefix, ns, name);
        push_field(&mut e, self.client_last_update.to_element("xcep", XCEP_NS, "lastUpdate"));
        e
    }

    fn from_element(e: &Element) -> (r: Result<Self, DecodeError>) {
        proof {
            reveal_strlit("lastUpdate");
            assert("lastUpdate"@.len() == 10);
        }
        let client_last_update = read_message::<ClientLastUpdate>(e, XCEP_NS, "lastUpdate")?;
        Ok(Client { client_last_update })
    }
}

/// Cryptographic providers, by name.
#[derive(Debug)]
pub struct CryptoProviders {
    pub provider: Vec<String>,
}

impl XmlMessage for CryptoProviders {
    open spec fn wf(&self) -> bool {
        true
    }

    open spec fn encodes(&self, e: Element) -> bool {
        text_list(e, XCEP_NS@, "provider"@, self.provider@)
    }

    open spec fn decodes(e: Element, v: Self) -> bool {
        text_list(e, XCEP_NS@, "provider"@, v.provider@)
    }

    open spec fn same(&self, other: &Self) -> bool {
        same_texts(self.provider@, other.provider@)
    }

    proof fn lemma_encodes_tree(&self, e1: Element, e2: Element) {
        lemma_same_tree_children(e1, e2, XCEP_NS@);
        lemma_texts_tree(e1, e2, XCEP_NS@, "provider"@, self.provider@, Seq::empty());
    }

    fn to_element(&self, prefix: &str, ns: &str, name: &str) -> (r: Element) {
        proof {
            reveal_strlit("provider");
            assert("provider"@.len() == 8);
        }
        let mut e = bare(prefix, ns, name);
        push_text_list(&mut e, "xcep", XCEP_NS, "provider", &self.provider);
        e
    }

    fn from_element(e: &Element) -> (r: Result<Self, DecodeError>) {
        proof {
            reveal_strlit("provider");
            assert("provider"@.len() == 8);
        }
        let provider = read_text_list(e, XCEP_NS, "provider");
        Ok(CryptoProviders { provider })
    }
}

/// Whether a client may enroll, and automatically.
#[derive(Debug)]
pub struct EnrollmentPermission {
    pub enroll: bool,
    pub auto_enroll: bool,
}

impl XmlMessage for EnrollmentPermission {
    open spec fn wf(&self) -> bool {
        true
    }

    open spec fn encodes(&self, e: Element) -> bool {
        &&& scalar_written(e, XCEP_NS@, "enroll"@, scalar_text(ScalarKind::Boolean, bool_int(self.enroll)))
        &&& scalar_written(e, XCEP_NS@, "autoEnroll"@, scalar_text(ScalarKind::Boolean, bool_int(self.auto_enroll)))
    }

    open spec fn decodes(e: Element, v: Self) -> bool {
        &&& scalar_read(e, XCEP_NS@, "enroll"@, ScalarKind::Boolean, bool_int(v.enroll))
        &&& scalar_read(e, XCEP_NS@, "autoEnroll"@, ScalarKind::Boolean, bool_int(v.auto_enroll))
    }

    open spec fn same(&self, other: &Self) -> bool {
        &&& self.enroll == other.enroll
        &&& self.auto_enroll == other.auto_enroll
    }

    proof fn lemma_encodes_tree(&self, e1: Element, e2: Element) {
        lemma_same_tree_children(e1, e2, XCEP_NS@);
    }

    fn to_element(&self, prefix: &str, ns: &str, name: &str) -> (r: Element) {
        proof {
            reveal_strlit("enroll");
            reveal_strlit("autoEnroll");
            assert("enroll"@.len() == 6);
            assert("autoEnroll"@.len() == 10);
        }
        let mut e = bare(prefix, ns, name);
        push_field(&mut e, bool_leaf("xcep", XCEP_NS, "enroll", self.enroll));
        push_field(&mut e, bool_leaf("xcep", XCEP_NS, "autoEnroll", self.auto_enroll));
        e
    }

    fn from_element(e: &Element) -> (r: Result<Self, DecodeError>) {
        proof {
            reveal_strlit("enroll");
            reveal_strlit("autoEnroll");
            assert("enroll"@.len() == 6);
            assert("autoEnroll"@.len() == 10);
        }
        let enroll = required(read_bool_field(e, XCEP_NS, "enroll")?, "enroll")?;
        let auto_enroll = required(read_bool_field(e, XCEP_NS, "autoEnroll")?, "autoEnroll")?;
        Ok(EnrollmentPermission { enroll, auto_enroll })
    }
}

/// A certificate extension.
#[derive(Debug)]
pub struct Extension {
    pub o_id_reference: i32,
    pub critical: bool,
    pub value: Option<String>,
}

impl XmlMessage for Extension {
    open spec fn wf(&self) -> bool {
        true
    }

    open spec fn encodes(&self, e: Element) -> bool {
        &&& scalar_written(e, XCEP_NS@, "oIDReference"@, scalar_text(i32_kind(), self.o_id_reference as int))
        &&& scalar_written(e, XCEP_NS@, "critical"@, scalar_text(ScalarKind::Boolean, bool_int(self.critical)))
        &&& optional_text_field(e, XCEP_NS@, "value"@, self.value)
    }

    open spec fn decodes(e: Element, v: Self) -> bool {
        &&& scalar_read(e, XCEP_NS@, "oIDReference"@, i32_kind(), v.o_id_reference as int)
        &&& scalar_read(e, XCEP_NS@, "critical"@, ScalarKind::Boolean, bool_int(v.critical))
        &&& optional_text_field(e, XCEP_NS@, "value"@, v.value)
    }

    open spec fn same(&self, other: &Self) -> bool {
        &&& self.o_id_reference == other.o_id_reference
        &&& self.critical == other.critical
        &&& opt_view(self.value) == opt_view(other.value)
    }

    proof fn lemma_encodes_tree(&self, e1: Element, e2: Element) {
        lemma_same_tree_children(e1, e2, XCEP_NS@);
    }

    fn to_element(&self, prefix: &str, ns: &str, name: &str) -> (r: Element) {
        proof {
            reveal_strlit("oIDReference");
            reveal_strlit("critical");
            reveal_strlit("value");
            assert("oIDReference"@.len() == 12);
            assert("critical"@.len() == 8);
            assert("value"@.len() == 5);
        }
        let mut e = bare(prefix, ns, name);
        push_field(&mut e, int_leaf("xcep", XCEP_NS, "oIDReference", self.o_id_reference as i64));
        push_field(&mut e, bool_leaf("xcep", XCEP_NS, "critical", self.critical));
        if let Some(x) = &self.value {
            push_field(&mut e, leaf("xcep", XCEP_NS, "value", x.clone()));
        }
        e
    }

    fn from_element(e: &Element) -> (r: Result<Self, DecodeError>) {
        proof {
            reveal_strlit("oIDReference");
            reveal_strlit("critical");
            reveal_strlit("value");
            assert("oIDReference"@.len() == 12);
            assert("critical"@.len() == 8);
            assert("value"@.len() == 5);
        }
        let o_id_reference = required(read_i32_field(e, XCEP_NS, "oIDReference")?, "oIDReference")?;
        let critical = required(read_bool_field(e, XCEP_NS, "critical")?, "critical")?;
        let value = child_text(e, XCEP_NS, "value");
        Ok(Extension { o_id_reference, critical, value })
    }
}

/// Certificate extensions.
#[derive(Debug)]
pub struct ExtensionCollection {
    pub extension: Vec<Extension>,
}

impl XmlMessage for ExtensionCollection {
    open spec fn wf(&self) -> bool {
        list_wf(self.extension@)
    }

    open spec fn encodes(&self, e: Element) -> bool {
        list_written(e, XCEP_NS@, "extension"@, self.extension@)
    }

    open spec fn decodes(e: Element, v: Self) -> bool {
        list_read(e, XCEP_NS@, "extension"@, v.extension@)
    }

    open spec fn same(&self, other: &Self) -> bool {
        list_same(self.extension@, other.extension@)
    }

    proof fn lemma_encodes_tree(&self, e1: Element, e2: Element) {
        lemma_same_tree_children(e1, e2, XCEP_NS@);
        lemma_list_tree(e1, e2, XCEP_NS@, "extension"@, self.extension@);
    }

    fn to_element(&self, prefix: &str, ns: &str, name: &str) -> (r: Element) {
        proof {
            reveal_strlit("extension");
            assert("extension"@.len() == 9);
        }
        let mut e = bare(prefix, ns, name);
        push_message_list(&mut e, "xcep", XCEP_NS, "extension", &self.extension);
        e
    }

    fn from_element(e: &Element) -> (r: Result<Self, DecodeError>) {
        proof {
            reveal_strlit("extension");
            assert("extension"@.len() == 9);
        }
        let extension = read_message_list::<Extension>(e, XCEP_NS, "extension")?;
        Ok(ExtensionCollection { extension })
    }
}

/// Object identifiers that filter policies.
#[derive(Debug)]
pub struct FilterOIDCollection {
    pub oid: Vec<String>,
}

impl XmlMessage for FilterOIDCollection {
    open spec fn wf(&self) -> bool {
        true
    }

    open spec fn encodes(&self, e: Element) -> bool {
        text_list(e, XCEP_NS@, "oid"@, self.oid@)
    }

    open spec fn decodes(e: Element, v: Self) -> bool {
        text_list(e, XCEP_NS@, "oid"@, v.oid@)
    }

    open spec fn same(&self, other: &Self) -> bool {
        same_texts(self.oid@, other.oid@)
    }

    proof fn lemma_encodes_tree(&self, e1: Element, e2: Element) {
        lemma_same_tree_children(e1, e2, XCEP_NS@);
        lemma_texts_tree(e1, e2, XCEP_NS@, "oid"@, self.oid@, Seq::empty());
    }

    fn to_element(&self, prefix: &str, ns: &str, name: &str) -> (r: Element) {
        proof {
            reveal_strlit("oid");
            assert("oid"@.len() == 3);
        }
        let mut e = bare(prefix, ns, name);
        push_text_list(&mut e, "xcep", XCEP_NS, "oid", &self.oid);
        e
    }

    fn from_element(e: &Element) -> (r: Result<Self, DecodeError>) {
        proof {
            reveal_strlit("oid");
            assert("oid"@.len() == 3);
        }
        let oid = read_text_list(e, XCEP_NS, "oid");
        Ok(FilterOIDCollection { oid })
    }
}

/// How a private key is archived.
#[derive(Debug)]
pub struct KeyArchivalAttributes {
    pub symmetric_algorithm_oid_reference: i32,
    pub symmetric_algorithm_key_length: u32,
}

impl XmlMessage for KeyArchivalAttributes {
    open spec fn wf(&self) -> bool {
        true
    }

    open spec fn encodes(&self, e: Element) -> bool {
        &&& scalar_written(e, XCEP_NS@, "symmetricAlgorithmOIDReference"@, scalar_text(i32_kind(), self.symmetric_algorithm_oid_reference as int))
        &&& scalar_written(e, XCEP_NS@, "symmetricAlgorithmKeyLength"@, scalar_text(u32_kind(), self.symmetric_algorithm_key_length as int))
    }

    open spec fn decodes(e: Element, v: Self) -> bool {
        &&& scalar_read(e, XCEP_NS@, "symmetricAlgorithmOIDReference"@, i32_kind(), v.symmetric_algorithm_oid_reference as int)
        &&& scalar_read(e, XCEP_NS@, "symmetricAlgorithmKeyLength"@, u32_kind(), v.symmetric_algorithm_key_length as int)
    }

    open spec fn same(&self, other: &Self) -> bool {
        &&& self.symmetric_algorithm_oid_reference == other.symmetric_algorithm_oid_reference
        &&& self.symmetric_algorithm_key_length == other.symmetric_algorithm_key_length
    }

    proof fn lemma_encodes_tree(&self, e1: Element, e2: Element) {
        lemma_same_tree_children(e1, e2, XCEP_NS@);
    }

    fn to_element(&self, prefix: &str, ns: &str, name: &str) -> (r: Element) {
        proof {
            reveal_strlit("symmetricAlgorithmOIDReference");
            reveal_strlit("symmetricAlgorithmKeyLength");
            assert("symmetricAlgorithmOIDReference"@.len() == 30);
            assert("symmetricAlgorithmKeyLength"@.len() == 27);
        }
        let mut e = bare(prefix, ns, name);
        push_field(&mut e, int_leaf("xcep", XCEP_NS, "symmetricAlgorithmOIDReference", self.symmetric_algorithm_oid_reference as i64));
        push_field(&mut e, int_leaf("xcep", XCEP_NS, "symmetricAlgorithmKeyLength", self.symmetric_algorithm_key_length as i64));
        e
    }

    fn from_element(e: &Element) -> (r: Result<Self, DecodeError>) {
        proof {
            reveal_strlit("symmetricAlgorithmOIDReference");
            reveal_strlit("symmetricAlgorithmKeyLength");
            assert("symmetricAlgorithmOIDReference"@.len() == 30);
            assert("symmetricAlgorithmKeyLength"@.len() == 27);
        }
        let symmetric_algorithm_oid_reference = required(read_i32_field(e, XCEP_NS, "symmetricAlgorithmOIDReference")?, "symmetricAlgorithmOIDReference")?;
        let symmetric_algorithm_key_length = required(read_u32_field(e, XCEP_NS, "symmetricAlgorithmKeyLength")?, "symmetricAlgorithmKeyLength")?;
        Ok(KeyArchivalAttributes { symmetric_algorithm_oid_reference, symmetric_algorithm_key_length })
    }
}

/// An object identifier.
#[derive(Debug)]
pub struct Oid {
    pub value: String,
    pub group: u32,
    pub o_id_reference_id: i32,
    pub default_name: Option<String>,
}

impl XmlMessage for Oid {
    open spec fn wf(&self) -> bool {
        true
    }

    open spec fn encodes(&self, e: Element) -> bool {
        &&& text_field(e, XCEP_NS@, "value"@, self.value)
        &&& scalar_written(e, XCEP_NS@, "group"@, scalar_text(u32_kind(), self.group as int))
        &&& scalar_written(e, XCEP_NS@, "oIDReferenceID"@, scalar_text(i32_kind(), self.o_id_reference_id as int))
        &&& optional_text_field(e, XCEP_NS@, "defaultName"@, self.default_name)
    }

    open spec fn decodes(e: Element, v: Self) -> bool {
        &&& text_field(e, XCEP_NS@, "value"@, v.value)
        &&& scalar_read(e, XCEP_NS@, "group"@, u32_kind(), v.group as int)
        &&& scalar_read(e, XCEP_NS@, "oIDReferenceID"@, i32_kind(), v.o_id_reference_id as int)
        &&& optional_text_field(e, XCEP_NS@, "defaultName"@, v.default_name)
    }

    open spec fn same(&self, other: &Self) -> bool {
        &&& self.value@ == other.value@
        &&& self.group == other.group
        &&& self.o_id_reference_id == other.o_id_reference_id
        &&& opt_view(self.default_name) == opt_view(other.default_name)
    }

    proof fn lemma_encodes_tree(&self, e1: Element, e2: Element) {
        lemma_same_tree_children(e1, e2, XCEP_NS@);
    }

    fn to_element(&self, prefix: &str, ns: &str, name: &str) -> (r: Element) {
        proof {
            reveal_strlit("value");
            reveal_strlit("group");
            reveal_strlit("oIDReferenceID");
            reveal_strlit("defaultName");
            assert("value"@.len() == 5);
            assert("group"@.len() == 5);
            assert("oIDReferenceID"@.len() == 14);
            assert("defaultName"@.len() == 11);
            assert("value"@[0] != "group"@[0]);
        }
        let mut e = bare(prefix, ns, name);
        push_field(&mut e, leaf("xcep", XCEP_NS, "value", self.value.clone()));
        push_field(&mut e, int_leaf("xcep", XCEP_NS, "group", self.group as i64));
        push_field(&mut e, int_leaf("xcep", XCEP_NS, "oIDReferenceID", self.o_id_reference_id as i64));
        if let Some(x) = &self.default_name {
            push_field(&mut e, leaf("xcep", XCEP_NS, "defaultName", x.clone()));
        }
        e
    }

    fn from_element(e: &Element) -> (r: Result<Self, DecodeError>) {
        proof {
            reveal_strlit("value");
            reveal_strlit("group");
            reveal_strlit("oIDReferenceID");
            reveal_strlit("defaultName");
            assert("value"@.len() == 5);
            assert("group"@.len() == 5);
            assert("oIDReferenceID"@.len() == 14);
            assert("defaultName"@.len() == 11);
            assert("value"@[0] != "group"@[0]);
        }
        let value = required_text(e, XCEP_NS, "value")?;
        let group = required(read_u32_field(e, XCEP_NS, "group")?, "group")?;
        let o_id_reference_id = required(read_i32_field(e, XCEP_NS, "oIDReferenceID")?, "oIDReferenceID")?;
        let default_name = child_text(e, XCEP_NS, "defaultName");
        Ok(Oid { value, group, o_id_reference_id, default_name })
    }
}

/// Object identifiers.
#[derive(Debug)]
pub struct Oidcollection {
    pub o_id: Vec<Oid>,
}

impl XmlMessage for Oidcollection {
    open spec fn wf(&self) -> bool {
        list_wf(self.o_id@)
    }

    open spec fn encodes(&self, e: Element) -> bool {
        list_written(e, XCEP_NS@, "oID"@, self.o_id@)
    }

    open spec fn decodes(e: Element, v: Self) -> bool {
        list_read(e, XCEP_NS@, "oID"@, v.o_id@)
    }

    open spec fn same(&self, other: &Self) -> bool {
        list_same(self.o_id@, other.o_id@)
    }

    proof fn lemma_encodes_tree(&self, e1: Element, e2: Element) {
        lemma_same_tree_children(e1, e2, XCEP_NS@);
        lemma_list_tree(e1, e2, XCEP_NS@, "oID"@, self.o_id@);
    }

    fn to_element(&self, prefix: &str, ns: &str, name: &str) -> (r: Element) {
        proof {
            reveal_strlit("oID");
            assert("oID"@.len() == 3);
        }
        let mut e = bare(prefix, ns, name);
        push_message_list(&mut e, "xcep", XCEP_NS, "oID", &self.o_id);
        e
    }

    fn from_element(e: &Element) -> (r: Result<Self, DecodeError>) {
        proof {
            reveal_strlit("oID");
            assert("oID"@.len() == 3);
        }
        let o_id = read_message_list::<Oid>(e, XCEP_NS, "oID")?;
        Ok(Oidcollection { o_id })
    }
}

/// References to object identifiers.
#[derive(Debug)]
pub struct OidreferenceCollection {
    pub o_id_reference: Vec<i32>,
}

impl XmlMessage for OidreferenceCollection {
    open spec fn wf(&self) -> bool {
        true
    }

    open spec fn encodes(&self, e: Element) -> bool {
        int_list_written(e, XCEP_NS@, "oIDReference"@, self.o_id_reference@)
    }

    open spec fn decodes(e: Element, v: Self) -> bool {
        int_list_read(e, XCEP_NS@, "oIDReference"@, v.o_id_reference@)
    }

    open spec fn same(&self, other: &Self) -> bool {
        self.o_id_reference@ == other.o_id_reference@
    }

    proof fn lemma_encodes_tree(&self, e1: Element, e2: Element) {
        lemma_same_tree_children(e1, e2, XCEP_NS@);
        lemma_texts_tree(e1, e2, XCEP_NS@, "oIDReference"@, Seq::empty(), self.o_id_reference@);
    }

    fn to_element(&self, prefix: &str, ns: &str, name: &str) -> (r: Element) {
        proof {
            reveal_strlit("oIDReference");
            assert("oIDReference"@.len() == 12);
        }
        let mut e = bare(prefix, ns, name);
        push_int_list(&mut e, "xcep", XCEP_NS, "oIDReference", &self.o_id_reference);
        e
    }

    fn from_element(e: &Element) -> (r: Result<Self, DecodeError>) {
        proof {
            reveal_strlit("oIDReference");
            assert("oIDReference"@.len() == 12);
        }
        let o_id_reference = read_int_list(e, XCEP_NS, "oIDReference")?;
        Ok(OidreferenceCollection { o_id_reference })
    }
}

/// Certificate enrollment policies.
#[derive(Debug)]
pub struct PolicyCollection {
    pub policy: Vec<CertificateEnrollmentPolicy>,
}

impl XmlMessage for PolicyCollection {
    open spec fn wf(&self) -> bool {
        list_wf(self.policy@)
    }

    open spec fn encodes(&self, e: Element) -> bool {
        list_written(e, XCEP_NS@, "policy"@, self.policy@)
    }

    open spec fn decodes(e: Element, v: Self) -> bool {
        list_read(e, XCEP_NS@, "policy"@, v.policy@)
    }

    open spec fn same(&self, other: &Self) -> bool {
        list_same(self.policy@, other.policy@)
    }

    proof fn lemma_encodes_tree(&self, e1: Element, e2: Element) {
        lemma_same_tree_children(e1, e2, XCEP_NS@);
        lemma_list_tree(e1, e2, XCEP_NS@, "policy"@, self.policy@);
    }

    fn to_element(&self, prefix: &str, ns: &str, name: &str) -> (r: Element) {
        proof {
            reveal_strlit("policy");
            assert("policy"@.len() == 6);
        }
        let mut e = bare(prefix, ns, name);
        push_message_list(&mut e, "xcep", XCEP_NS, "policy", &self.policy);
        e
    }

    fn from_element(e: &Element) -> (r: Result<Self, DecodeError>) {
        proof {
            reveal_strlit("policy");
            assert("policy"@.len() == 6);
        }
        let policy = read_message_list::<CertificateEnrollmentPolicy>(e, XCEP_NS, "policy")?;
        Ok(PolicyCollection { policy })
    }
}

/// The attributes of a private key.
#[derive(Debug)]
pub struct PrivateKeyAttributes {
    pub minimal_key_length: u32,
    pub key_spec: Option<u32>,
    pub key_usage_property: Option<u32>,
    pub permissions: Option<String>,
    pub algorithm_oid_reference: Option<i32>,
    pub crypto_providers: Option<CryptoProviders>,
}

impl XmlMessage for PrivateKeyAttributes {
    open spec fn wf(&self) -> bool {
        optional_wf(self.crypto_providers)
    }

    open spec fn encodes(&self, e: Element) -> bool {
        &&& scalar_written(e, XCEP_NS@, "minimalKeyLength"@, scalar_text(u32_kind(), self.minimal_key_length as int))
        &&& optional_scalar_written(e, XCEP_NS@, "keySpec"@, match self.key_spec { Some(x) => Some(scalar_text(u32_kind(), x as int)), None => None })
        &&& optional_scalar_written(e, XCEP_NS@, "keyUsageProperty"@, match self.key_usage_property { Some(x) => Some(scalar_text(u32_kind(), x as int)), None => None })
        &&& optional_text_field(e, XCEP_NS@, "permissions"@, self.permissions)
        &&& optional_scalar_written(e, XCEP_NS@, "algorithmOIDReference"@, match self.algorithm_oid_reference { Some(x) => Some(scalar_text(i32_kind(), x as int)), None => None })
        &&& optional_message_written(e, XCEP_NS@, "cryptoProviders"@, self.crypto_providers)
    }

    open spec fn decodes(e: Element, v: Self) -> bool {
        &&& scalar_read(e, XCEP_NS@, "minimalKeyLength"@, u32_kind(), v.minimal_key_length as int)
        &&& optional_scalar_read(e, XCEP_NS@, "keySpec"@, u32_kind(), match v.key_spec { Some(x) => Some(x as int), None => None })
        &&& optional_scalar_read(e, XCEP_NS@, "keyUsageProperty"@, u32_kind(), match v.key_usage_property { Some(x) => Some(x as int), None => None })
        &&& optional_text_field(e, XCEP_NS@, "permissions"@, v.permissions)
        &&& optional_scalar_read(e, XCEP_NS@, "algorithmOIDReference"@, i32_kind(), match v.algorithm_oid_reference { Some(x) => Some(x as int), None => None })
        &&& optional_message_read(e, XCEP_NS@, "cryptoProviders"@, v.crypto_providers)
    }

    open spec fn same(&self, other: &Self) -> bool {
        &&& self.minimal_key_length == other.minimal_key_length
        &&& self.key_spec == other.key_spec
        &&& self.key_usage_property == other.key_usage_property
        &&& opt_view(self.permissions) == opt_view(other.permissions)
        &&& self.algorithm_oid_reference == other.algorithm_oid_reference
        &&& optional_same(self.crypto_providers, other.crypto_providers)
    }

    proof fn lemma_encodes_tree(&self, e1: Element, e2: Element) {
        lemma_same_tree_children(e1, e2, XCEP_NS@);
        lemma_message_tree(e1, e2, XCEP_NS@, "cryptoProviders"@, self.crypto_providers);
    }

    fn to_element(&self, prefix: &str, ns: &str, name: &str) -> (r: Element) {
        proof {
            reveal_strlit("minimalKeyLength");
            reveal_strlit("keySpec");
            reveal_strlit("keyUsageProperty");
            reveal_strlit("permissions");
            reveal_strlit("algorithmOIDReference");
            reveal_strlit("cryptoProviders");
            assert("minimalKeyLength"@.len() == 16);
            assert("keySpec"@.len() == 7);
            assert("keyUsageProperty"@.len() == 16);
            assert("permissions"@.len() == 11);
            assert("algorithmOIDReference"@.len() == 21);
            assert("cryptoProviders"@.len() == 15);
            assert("minimalKeyLength"@[0] != "keyUsageProperty"@[0]);
        }
        let mut e = bare(prefix, ns, name);
        push_field(&mut e, int_leaf("xcep", XCEP_NS, "minimalKeyLength", self.minimal_key_length as i64));
        if let Some(x) = &self.key_spec {
            push_field(&mut e, int_leaf("xcep", XCEP_NS, "keySpec", *x as i64));
        }
        if let Some(x) = &self.key_usage_property {
            push_field(&mut e, int_leaf("xcep", XCEP_NS, "keyUsageProperty", *x as i64));
        }
        if let Some(x) = &self.permissions {
            push_field(&mut e, leaf("xcep", XCEP_NS, "permissions", x.clone()));
        }
        if let Some(x) = &self.algorithm_oid_reference {
            push_field(&mut e, int_leaf("xcep", XCEP_NS, "algorithmOIDReference", *x as i64));
        }
        if let Some(x) = &self.crypto_providers {
            push_field(&mut e, x.to_element("xcep", XCEP_NS, "cryptoProviders"));
        }
        e
    }

    fn from_element(e: &Element) -> (r: Result<Self, DecodeError>) {
        proof {
            reveal_strlit("minimalKeyLength");
            reveal_strlit("keySpec");
            reveal_strlit("keyUsageProperty");
            reveal_strlit("permissions");
            reveal_strlit("algorithmOIDReference");
            reveal_strlit("cryptoProviders");
            assert("minimalKeyLength"@.len() == 16);
            assert("keySpec"@.len() == 7);
            assert("keyUsageProperty"@.len() == 16);
            assert("permissions"@.len() == 11);
            assert("algorithmOIDReference"@.len() == 21);
            assert("cryptoProviders"@.len() == 15);
            assert("minimalKeyLength"@[0] != "keyUsageProperty"@[0]);
        }
        let minimal_key_length = required(read_u32_field(e, XCEP_NS, "minimalKeyLength")?, "minimalKeyLength")?;
        let key_spec = read_u32_field(e, XCEP_NS, "keySpec")?;
        let key_usage_property = read_u32_field(e, XCEP_NS, "keyUsageProperty")?;
        let permissions = child_text(e, XCEP_NS, "permissions");
        let algorithm_oid_reference = read_i32_field(e, XCEP_NS, "algorithmOIDReference")?;
        let crypto_providers = read_optional_message::<CryptoProviders>(e, XCEP_NS, "cryptoProviders")?;
        Ok(PrivateKeyAttributes { minimal_key_length, key_spec, key_usage_property, permissions, algorithm_oid_reference, crypto_providers })
    }
}

/// What registration authorities must sign.
#[derive(Debug)]
pub struct Rarequirements {
    pub r_a_signatures: u32,
    pub r_aek_us: Option<OidreferenceCollection>,
    pub r_a_policies: Option<OidreferenceCollection>,
}

impl XmlMessage for Rarequirements {
    open spec fn wf(&self) -> bool {
        &&& optional_wf(self.r_aek_us)
        &&& optional_wf(self.r_a_policies)
    }

    open spec fn encodes(&self, e: Element) -> bool {
        &&& scalar_written(e, XCEP_NS@, "rASignatures"@, scalar_text(u32_kind(), self.r_a_signatures as int))
        &&& optional_message_written(e, XCEP_NS@, "rAEKUs"@, self.r_aek_us)
        &&& optional_message_written(e, XCEP_NS@, "rAPolicies"@, self.r_a_policies)
    }

    open spec fn decodes(e: Element, v: Self) -> bool {
        &&& scalar_read(e, XCEP_NS@, "rASignatures"@, u32_kind(), v.r_a_signatures as int)
        &&& optional_message_read(e, XCEP_NS@, "rAEKUs"@, v.r_aek_us)
        &&& optional_message_read(e, XCEP_NS@, "rAPolicies"@, v.r_a_policies)
    }

    open spec fn same(&self, other: &Self) -> bool {
        &&& self.r_a_signatures == other.r_a_signatures
        &&& optional_same(self.r_aek_us, other.r_aek_us)
        &&& optional_same(self.r_a_policies, other.r_a_policies)
    }

    proof fn lemma_encodes_tree(&self, e1: Element, e2: Element) {
        lemma_same_tree_children(e1, e2, XCEP_NS@);
        lemma_message_tree(e1, e2, XCEP_NS@, "rAEKUs"@, self.r_aek_us);
        lemma_message_tree(e1, e2, XCEP_NS@, "rAPolicies"@, self.r_a_policies);
    }

    fn to_element(&self, prefix: &str, ns: &str, name: &str) -> (r: Element) {
        proof {
            reveal_strlit("rASignatures");
            reveal_strlit("rAEKUs");
            reveal_strlit("rAPolicies");
            assert("rASignatures"@.len() == 12);
            assert("rAEKUs"@.len() == 6);
            assert("rAPolicies"@.len() == 10);
        }
        let mut e = bare(prefix, ns, name);
        push_field(&mut e, int_leaf("xcep", XCEP_NS, "rASignatures", self.r_a_signatures as i64));
        if let Some(x) = &self.r_aek_us {
            push_field(&mut e, x.to_element("xcep", XCEP_NS, "rAEKUs"));
        }
        if let Some(x) = &self.r_a_policies {
            push_field(&mut e, x.to_element("xcep", XCEP_NS, "rAPolicies"));
        }
        e
    }

    fn from_element(e: &Element) -> (r: Result<Self, DecodeError>) {
        proof {
            reveal_strlit("rASignatures");
            reveal_strlit("rAEKUs");
            reveal_strlit("rAPolicies");
            assert("rASignatures"@.len() == 12);
            assert("rAEKUs"@.len() == 6);
            assert("rAPolicies"@.len() == 10);
        }
        let r_a_signatures = required(read_u32_field(e, XCEP_NS, "rASignatures")?, "rASignatures")?;
        let r_aek_us = read_optional_message::<OidreferenceCollection>(e, XCEP_NS, "rAEKUs")?;
        let r_a_policies = read_optional_message::<OidreferenceCollection>(e, XCEP_NS, "rAPolicies")?;
        Ok(Rarequirements { r_a_signatures, r_aek_us, r_a_policies })
    }
}

/// A filter on the policies asked for.
#[derive(Debug)]
pub struct RequestFilter {
    pub policy_oi_ds: Option<FilterOIDCollection>,
}

impl XmlMessage for RequestFilter {
    open spec fn wf(&self) -> bool {
        optional_wf(self.policy_oi_ds)
    }

    open spec fn encodes(&self, e: Element) -> bool {
        optional_message_written(e, XCEP_NS@, "policyOIDs"@, self.policy_oi_ds)
    }

    open spec fn decodes(e: Element, v: Self) -> bool {
        optional_message_read(e, XCEP_NS@, "policyOIDs"@, v.policy_oi_ds)
    }

    open spec fn same(&self, other: &Self) -> bool {
        optional_same(self.policy_oi_ds, other.policy_oi_ds)
    }

    proof fn lemma_encodes_tree(&self, e1: Element, e2: Element) {
        lemma_same_tree_children(e1, e2, XCEP_NS@);
        lemma_message_tree(e1, e2, XCEP_NS@, "policyOIDs"@, self.policy_oi_ds);
    }

    fn to_element(&self, prefix: &str, ns: &str, name: &str) -> (r: Element) {
        proof {
            reveal_strlit("policyOIDs");
            assert("policyOIDs"@.len() == 10);
        }
        let mut e = bare(prefix, ns, name);
        if let Some(x) = &self.policy_oi_ds {
            push_field(&mut e, x.to_element("xcep", XCEP_NS, "policyOIDs"));
        }
        e
    }

    fn from_element(e: &Element) -> (r: Result<Self, DecodeError>) {
        proof {
            reveal_strlit("policyOIDs");
            assert("policyOIDs"@.len() == 10);
        }
        let policy_oi_ds = read_optional_message::<FilterOIDCollection>(e, XCEP_NS, "policyOIDs")?;
        Ok(RequestFilter { policy_oi_ds })
    }
}

/// The policies of a response.
#[derive(Debug)]
pub struct Response {
    pub policy_id: String,
    pub policy_friendly_name: Option<String>,
    pub next_update_hours: Option<u32>,
    pub policies_not_changed: Option<bool>,
    pub policies: Option<PolicyCollection>,
}

impl XmlMessage for Response {
    open spec fn wf(&self) -> bool {
        optional_wf(self.policies)
    }

    open spec fn encodes(&self, e: Element) -> bool {
        &&& text_field(e, XCEP_NS@, "policyID"@, self.policy_id)
        &&& optional_text_field(e, XCEP_NS@, "policyFriendlyName"@, self.policy_friendly_name)
        &&& optional_scalar_written(e, XCEP_NS@, "nextUpdateHours"@, match self.next_update_hours { Some(x) => Some(scalar_text(u32_kind(), x as int)), None => None })
        &&& optional_scalar_written(e, XCEP_NS@, "policiesNotChanged"@, match self.policies_not_changed { Some(x) => Some(scalar_text(ScalarKind::Boolean, bool_int(x))), None => None })
        &&& optional_message_written(e, XCEP_NS@, "policies"@, self.policies)
    }

    open spec fn decodes(e: Element, v: Self) -> bool {
        &&& text_field(e, XCEP_NS@, "policyID"@, v.policy_id)
        &&& optional_text_field(e, XCEP_NS@, "policyFriendlyName"@, v.policy_friendly_name)
        &&& optional_scalar_read(e, XCEP_NS@, "nextUpdateHours"@, u32_kind(), match v.next_update_hours { Some(x) => Some(x as int), None => None })
        &&& optional_scalar_read(e, XCEP_NS@, "policiesNotChanged"@, ScalarKind::Boolean, match v.policies_not_changed { Some(x) => Some(bool_int(x)), None => None })
        &&& optional_message_read(e, XCEP_NS@, "policies"@, v.policies)
    }

    open spec fn same(&self, other: &Self) -> bool {
        &&& self.policy_id@ == other.policy_id@
        &&& opt_view(self.policy_friendly_name) == opt_view(other.policy_friendly_name)
        &&& self.next_update_hours == other.next_update_hours
        &&& self.policies_not_changed == other.policies_not_changed
        &&& optional_same(self.policies, other.policies)
    }

    proof fn lemma_encodes_tree(&self, e1: Element, e2: Element) {
        lemma_same_tree_children(e1, e2, XCEP_NS@);
        lemma_message_tree(e1, e2, XCEP_NS@, "policies"@, self.policies);
    }

    fn to_element(&self, prefix: &str, ns: &str, name: &str) -> (r: Element) {
        proof {
            reveal_strlit("policyID");
            reveal_strlit("policyFriendlyName");
            reveal_strlit("nextUpdateHours");
            reveal_strlit("policiesNotChanged");
            reveal_strlit("policies");
            assert("policyID"@.len() == 8);
            assert("policyFriendlyName"@.len() == 18);
            assert("nextUpdateHours"@.len() == 15);
            assert("policiesNotChanged"@.len() == 18);
            assert("policies"@.len() == 8);
            assert("policyID"@[5] != "policies"@[5]);
            assert("policyFriendlyName"@[5] != "policiesNotChanged"@[5]);
        }
        let mut e = bare(prefix, ns, name);
        push_field(&mut e, leaf("xcep", XCEP_NS, "policyID", self.policy_id.clone()));
        if let Some(x) = &self.policy_friendly_name {
            push_field(&mut e, leaf("xcep", XCEP_NS, "policyFriendlyName", x.clone()));
        }
        if let Some(x) = &self.next_update_hours {
            push_field(&mut e, int_leaf("xcep", XCEP_NS, "nextUpdateHours", *x as i64));
        }
        if let Some(x) = &self.policies_not_changed {
            push_field(&mut e, bool_leaf("xcep", XCEP_NS, "policiesNotChanged", *x));
        }
        if let Some(x) = &self.policies {
            push_field(&mut e, x.to_element("xcep", XCEP_NS, "policies"));
        }
        e
    }

    fn from_element(e: &Element) -> (r: Result<Self, DecodeError>) {
        proof {
            reveal_strlit("policyID");
            reveal_strlit("policyFriendlyName");
            reveal_strlit("nextUpdateHours");
            reveal_strlit("policiesNotChanged");
            reveal_strlit("policies");
            assert("policyID"@.len() == 8);
            assert("policyFriendlyName"@.len() == 18);
            assert("nextUpdateHours"@.len() == 15);
            assert("policiesNotChanged"@.len() == 18);
            assert("policies"@.len() == 8);
            assert("policyID"@[5] != "policies"@[5]);
            assert("policyFriendlyName"@[5] != "policiesNotChanged"@[5]);
        }
        let policy_id = required_text(e, XCEP_NS, "policyID")?;
        let policy_friendly_name = child_text(e, XCEP_NS, "policyFriendlyName");
        let next_update_hours = read_u32_field(e, XCEP_NS, "nextUpdateHours")?;
        let policies_not_changed = read_bool_field(e, XCEP_NS, "policiesNotChanged")?;
        let policies = read_optional_message::<PolicyCollection>(e, XCEP_NS, "policies")?;
        Ok(Response { policy_id, policy_friendly_name, next_update_hours, policies_not_changed, policies })
    }
}

/// The revision of a policy.
#[derive(Debug)]
pub struct Revision {
    pub major_revision: u32,
    pub minor_revision: u32,
}

impl XmlMessage for Revision {
    open spec fn wf(&self) -> bool {
        true
    }

    open spec fn encodes(&self, e: Element) -> bool {
        &&& scalar_written(e, XCEP_NS@, "majorRevision"@, scalar_text(u32_kind(), self.major_revision as int))
        &&& scalar_written(e, XCEP_NS@, "minorRevision"@, scalar_text(u32_kind(), self.minor_revision as int))
    }

    open spec fn decodes(e: Element, v: Self) -> bool {
        &&& scalar_read(e, XCEP_NS@, "majorRevision"@, u32_kind(), v.major_revision as int)
        &&& scalar_read(e, XCEP_NS@, "minorRevision"@, u32_kind(), v.minor_revision as int)
    }

    open spec fn same(&self, other: &Self) -> bool {
        &&& self.major_revision == other.major_revision
        &&& self.minor_revision == other.minor_revision
    }

    proof fn lemma_encodes_tree(&self, e1: Element, e2: Element) {
        lemma_same_tree_children(e1, e2, XCEP_NS@);
    }

    fn to_element(&self, prefix: &str, ns: &str, name: &str) -> (r: Element) {
        proof {
            reveal_strlit("majorRevision");
            reveal_strlit("minorRevision");
            assert("majorRevision"@.len() == 13);
            assert("minorRevision"@.len() == 13);
            assert("majorRevision"@[1] != "minorRevision"@[1]);
        }
        let mut e = bare(prefix, ns, name);
        push_field(&mut e, int_leaf("xcep", XCEP_NS, "majorRevision", self.major_revision as i64));
        push_field(&mut e, int_leaf("xcep", XCEP_NS, "minorRevision", self.minor_revision as i64));
        e
    }

    fn from_element(e: &Element) -> (r: Result<Self, DecodeError>) {
        proof {
            reveal_strlit("majorRevision");
            reveal_strlit("minorRevision");
            assert("majorRevision"@.len() == 13);
            assert("minorRevision"@.len() == 13);
            assert("majorRevision"@[1] != "minorRevision"@[1]);
        }
        let major_revision = required(read_u32_field(e, XCEP_NS, "majorRevision")?, "majorRevision")?;
        let minor_revision = required(read_u32_field(e, XCEP_NS, "minorRevision")?, "minorRevision")?;
        Ok(Revision { major_revision, minor_revision })
    }
}

/// The policies a policy supersedes, by name.
#[derive(Debug)]
pub struct SupersededPolicies {
    pub common_name: Vec<String>,
}

impl XmlMessage for SupersededPolicies {
    open spec fn wf(&self) -> bool {
        true
    }

    open spec fn encodes(&self, e: Element) -> bool {
        text_list(e, XCEP_NS@, "commonName"@, self.common_name@)
    }

    open spec fn decodes(e: Element, v: Self) -> bool {
        text_list(e, XCEP_NS@, "commonName"@, v.common_name@)
    }

    open spec fn same(&self, other: &Self) -> bool {
        same_texts(self.common_name@, other.common_name@)
    }

    proof fn lemma_encodes_tree(&self, e1: Element, e2: Element) {
        lemma_same_tree_children(e1, e2, XCEP_NS@);
        lemma_texts_tree(e1, e2, XCEP_NS@, "commonName"@, self.common_name@, Seq::empty());
    }

    fn to_element(&self, prefix: &str, ns: &str, name: &str) -> (r: Element) {
        proof {
            reveal_strlit("commonName");
            assert("commonName"@.len() == 10);
        }
        let mut e = bare(prefix, ns, name);
        push_text_list(&mut e, "xcep", XCEP_NS, "commonName", &self.common_name);
        e
    }

    fn from_element(e: &Element) -> (r: Result<Self, DecodeError>) {
        proof {
            reveal_strlit("commonName");
            assert("commonName"@.len() == 10);
        }
        let common_name = read_text_list(e, XCEP_NS, "commonName");
        Ok(SupersededPolicies { common_name })
    }
}

} // verus!
