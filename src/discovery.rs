//! The discovery endpoint: from a request document to the status and body
//! of the answer.

use vstd::prelude::*;
use crate::decimal::Decimal;
use crate::markup::{model_text, DecodeError, Element, has_name, element_text, XML_DECLARATION, document_root, tree_of, Tree, tree_child, child, lemma_tree_child, read_document, find_child, str_eq};
use crate::mde_v2::{
    ENROLL_NS, RequestType,
    AuthPolicyType, DiscoverHeader, DiscoverRequestBody, DiscoverResponse, DiscoverResponseBody,
    DiscoverResponseHeader, DiscoverResult,
};
use crate::schema::{XmlMessage, XmlModel};
use crate::soap::{SoapEnvelope, SOAP_NS, root_declarations};

verus! {

/// A discovery request as it arrives.
pub type DiscoverRequestEnvelope = SoapEnvelope<DiscoverRequestBody, DiscoverHeader>;

/// A discovery response as it is sent.
pub type DiscoverResponseEnvelope = SoapEnvelope<DiscoverResponseBody, DiscoverResponseHeader>;

/// The action of a discovery response.
pub const DISCOVER_RESPONSE_ACTION: &'static str = "http://schemas.microsoft.com/windows/management/2012/01/enrollment/IDiscoveryService/DiscoverResponse";

/// Where devices find the enrollment policy service.
pub const POLICY_SERVICE_URL: &'static str = "https://mdmwindows.com/EnrollmentServer/Policy.svc";

/// Where devices find the enrollment service.
pub const ENROLLMENT_SERVICE_URL: &'static str = "https://mdmwindows.com/EnrollmentServer/Enrollment.svc";

/// The media type of every answer.
pub const SOAP_CONTENT_TYPE: &'static str = "application/soap+xml; charset=utf-8";

/// `r` answers a request with this message id: no encoding style, the
/// discovery response action, no activity id, a header that relates to the
/// message id, on-premise authentication, the policy and enrollment
/// services, no authentication service, and enrollment version 4.0.
pub open spec fn answers(message_id: Seq<char>, r: DiscoverResponseEnvelope) -> bool {
    let result = r.body.discover.response;
    &&& r.wf()
    &&& r.encoding_style is None
    &&& r.header.action@ == DISCOVER_RESPONSE_ACTION@
    &&& r.header.activity_id is None
    &&& r.header.relates_to@ == message_id
    &&& result.auth_policy == AuthPolicyType::OnPremise
    &&& result.enrollment_policy_service_url matches Some(u) && u@ == POLICY_SERVICE_URL@
    &&& result.enrollment_service_url@ == ENROLLMENT_SERVICE_URL@
    &&& result.authentication_service_url is None
    &&& result.enrollment_version matches Some(d) && d.mantissa_spec() == 40 && d.scale_spec() == 1
}

/// `e` is the root of the answer to a request with this message id: an
/// `s:Envelope` declaring the `s` and `a` prefixes and holding the answer.
pub open spec fn answer_root(message_id: Seq<char>, e: Element) -> bool {
    &&& has_name(e, "s"@, SOAP_NS@, "Envelope"@)
    &&& root_declarations(e)
    &&& exists|response: DiscoverResponseEnvelope| answers(message_id, response) && #[trigger] response.encodes(e)
}

/// Any two answers to the same message id are written alike.
pub proof fn lemma_answers_alike(id: Seq<char>, r1: DiscoverResponseEnvelope, r2: DiscoverResponseEnvelope)
    requires
        answers(id, r1),
        answers(id, r2),
    ensures
        r1.root_model() == r2.root_model(),
{
    let (a, b) = (r1.body.discover.response, r2.body.discover.response);
    assert(a.enrollment_version->0.text_spec() == b.enrollment_version->0.text_spec());
    assert(a.model("enroll"@, ENROLL_NS@, "DiscoverResult"@) == b.model("enroll"@, ENROLL_NS@, "DiscoverResult"@));
    assert(r1.header.model("s"@, SOAP_NS@, "Header"@) == r2.header.model("s"@, SOAP_NS@, "Header"@));
}

/// The document that answers a request with this message id.
pub open spec fn answer_text(id: Seq<char>) -> Seq<char> {
    XML_DECLARATION@ + model_text((choose|r: DiscoverResponseEnvelope| answers(id, r)).root_model())
}

/// The answer to a discovery request.
pub fn discovery_response(request: &DiscoverRequestEnvelope) -> (r: DiscoverResponseEnvelope)
    ensures
        answers(request.header.message_id@, r),
{
    SoapEnvelope {
        encoding_style: None,
        header: DiscoverResponseHeader {
            action: String::from_str(DISCOVER_RESPONSE_ACTION),
            activity_id: None,
            relates_to: request.header.message_id.clone(),
        },
        body: DiscoverResponseBody {
            discover: DiscoverResponse {
                response: DiscoverResult {
                    auth_policy: AuthPolicyType::OnPremise,
                    enrollment_policy_service_url: Some(String::from_str(POLICY_SERVICE_URL)),
                    enrollment_service_url: String::from_str(ENROLLMENT_SERVICE_URL),
                    authentication_service_url: None,
                    enrollment_version: Some(Decimal::new(40, 1)),
                },
            },
        },
    }
}

/// The `request` element of a discovery request's tree, under `Body` and
/// `Discover`.
pub open spec fn request_tree(t: Tree) -> Option<Tree> {
    match tree_child(t, SOAP_NS@, "Body"@) {
        Some(b) => match tree_child(b, ENROLL_NS@, "Discover"@) {
            Some(d) => tree_child(d, ENROLL_NS@, "request"@),
            None => None,
        },
        None => None,
    }
}

/// Reads a discovery request document. An error in reading its `request`
/// element is returned as it is: without `RequestVersion`, that is
/// `MissingField("RequestVersion")`.
pub fn read_discovery_request(payload: &str) -> (r: Result<DiscoverRequestEnvelope, DecodeError>)
    ensures
        document_root(payload@) is None ==> (r matches Err(x) && x is Malformed),
        document_root(payload@) matches Some(t) && !(t.namespace == SOAP_NS@ && t.name == "Envelope"@)
            ==> (r matches Err(x) && x is WrongElement),
        document_root(payload@) matches Some(t) && t.namespace == SOAP_NS@ && t.name == "Envelope"@ && (
        request_tree(t) matches Some(q) && tree_child(q, ENROLL_NS@, "RequestVersion"@) is None) ==> (r matches Err(
            x,
        ) && x is MissingField && (x->MissingField_0)@ == "RequestVersion"@),
        r matches Ok(v) ==> exists|e: Element|
            document_root(payload@) == Some(tree_of(e)) && e.namespace@ == SOAP_NS@ && e.name@ == "Envelope"@
                && #[trigger] DiscoverRequestEnvelope::decodes(e, v),
        forall|e: Element, v: DiscoverRequestEnvelope|
            v.wf() && #[trigger] v.encodes(e) && e.namespace@ == SOAP_NS@ && e.name@ == "Envelope"@
                && document_root(payload@) == Some(tree_of(e)) ==> (r matches Ok(w) && w.same(&v)),
{
    let root = read_document(payload)?;
    if !(str_eq(root.namespace.as_str(), SOAP_NS) && str_eq(root.name.as_str(), "Envelope")) {
        return Err(DecodeError::WrongElement(root.name));
    }
    proof {
        lemma_tree_child(root, SOAP_NS@, "Body"@);
    }
    if let Some(bi) = find_child(&root, SOAP_NS, "Body") {
        let body = &root.children[bi];
        proof {
            lemma_tree_child(*body, ENROLL_NS@, "Discover"@);
        }
        if let Some(di) = find_child(body, ENROLL_NS, "Discover") {
            let discover = &body.children[di];
            proof {
                lemma_tree_child(*discover, ENROLL_NS@, "request"@);
            }
            if let Some(qi) = find_child(discover, ENROLL_NS, "request") {
                let request = &discover.children[qi];
                proof {
                    lemma_tree_child(*request, ENROLL_NS@, "RequestVersion"@);
                }
                if let Err(x) = RequestType::read(request) {
                    proof {
                        assert forall|e: Element, v: DiscoverRequestEnvelope|
                            v.wf() && #[trigger] v.encodes(e) && e.namespace@ == SOAP_NS@ && e.name@ == "Envelope"@
                                && document_root(payload@) == Some(tree_of(e)) implies false by {
                            v.lemma_encodes_tree(e, root);
                            assert(v.body.discover.request.encodes(*request));
                        }
                    }
                    return Err(x);
                }
            }
        }
    }
    proof {
        assert forall|e: Element, v: DiscoverRequestEnvelope|
            v.wf() && #[trigger] v.encodes(e) && e.namespace@ == SOAP_NS@ && e.name@ == "Envelope"@
                && document_root(payload@) == Some(tree_of(e)) implies v.encodes(root) by {
            v.lemma_encodes_tree(e, root);
        }
    }
    DiscoverRequestEnvelope::from_element(&root)
}

/// The status and body of the answer to a read request: 200 with the
/// response document when the request was read, else 400 with a plain text.
pub fn respond(parsed: Result<DiscoverRequestEnvelope, DecodeError>) -> (r: (u16, String))
    ensures
        (r.0 == 200) == (parsed is Ok),
        r.0 == 200 || r.0 == 400,
        parsed matches Ok(request) ==> exists|e: Element|
            #[trigger] answer_root(request.header.message_id@, e) && r.1@ == XML_DECLARATION@ + element_text(e, Seq::empty()),
        parsed matches Ok(request) ==> r.1@ == answer_text(request.header.message_id@),
        parsed is Err ==> r.1@ == "Bad Request"@,
{
    match parsed {
        Ok(request) => {
            let response = discovery_response(&request);
            let body = response.to_xml();
            proof {
                let e = choose|e: Element|
                    has_name(e, "s"@, SOAP_NS@, "Envelope"@) && root_declarations(e) && #[trigger] response.encodes(e)
                        && body@ == XML_DECLARATION@ + element_text(e, Seq::empty());
                assert(response.encodes(e));
                assert(answer_root(request.header.message_id@, e));
                let c = choose|c: DiscoverResponseEnvelope| answers(request.header.message_id@, c);
                lemma_answers_alike(request.header.message_id@, response, c);
            }
            (200, body)
        },
        Err(_) => (400, String::from_str("Bad Request")),
    }
}

/// The tree holds a `RequestVersion` where a discovery request has it:
/// `Body`, `Discover`, `request`, `RequestVersion`.
pub open spec fn has_request_version(t: Tree) -> bool {
    match tree_child(t, SOAP_NS@, "Body"@) {
        Some(b) => match tree_child(b, ENROLL_NS@, "Discover"@) {
            Some(d) => match tree_child(d, ENROLL_NS@, "request"@) {
                Some(q) => tree_child(q, ENROLL_NS@, "RequestVersion"@) is Some,
                None => false,
            },
            None => false,
        },
        None => false,
    }
}

/// The status and body of the answer to a discovery request document: 200
/// and the answer when the document's root is a discovery request envelope,
/// 400 when the document is not well-formed or its root is not an envelope.
pub fn handle_discovery(payload: &str) -> (r: (u16, String))
    ensures
        r.0 == 200 || r.0 == 400,
        r.0 == 400 ==> r.1@ == "Bad Request"@,
        document_root(payload@) is None ==> r.0 == 400,
        document_root(payload@) matches Some(t) && !(t.namespace == SOAP_NS@ && t.name == "Envelope"@)
            ==> r.0 == 400,
        document_root(payload@) matches Some(t) && !has_request_version(t) ==> r.0 == 400,
        forall|e: Element, v: DiscoverRequestEnvelope|
            v.wf() && #[trigger] v.encodes(e) && e.namespace@ == SOAP_NS@ && e.name@ == "Envelope"@
                && document_root(payload@) == Some(tree_of(e)) ==> r.0 == 200 && r.1@ == answer_text(
                v.header.message_id@,
            ) && exists|out: Element|
                #[trigger] answer_root(v.header.message_id@, out) && r.1@ == XML_DECLARATION@ + element_text(
                    out,
                    Seq::empty(),
                ),
{
    let parsed = read_discovery_request(payload);
    proof {
        if parsed is Ok {
            let v = parsed->Ok_0;
            let e = choose|e: Element|
                document_root(payload@) == Some(tree_of(e)) && e.namespace@ == SOAP_NS@ && e.name@ == "Envelope"@
                    && #[trigger] DiscoverRequestEnvelope::decodes(e, v);
            assert(DiscoverRequestEnvelope::decodes(e, v));
            let b = child(e, SOAP_NS@, "Body"@)->0;
            let d = child(b, ENROLL_NS@, "Discover"@)->0;
            let q = child(d, ENROLL_NS@, "request"@)->0;
            lemma_tree_child(e, SOAP_NS@, "Body"@);
            lemma_tree_child(b, ENROLL_NS@, "Discover"@);
            lemma_tree_child(d, ENROLL_NS@, "request"@);
            lemma_tree_child(q, ENROLL_NS@, "RequestVersion"@);
            assert(has_request_version(tree_of(e)));
        }
    }
    respond(parsed)
}

} // verus!
