use simple_mdm::decimal::Decimal;
use simple_mdm::discovery::{discovery_response, handle_discovery, respond, DiscoverRequestEnvelope, DiscoverResponseEnvelope};
use simple_mdm::markup::{read_document, write_document, DecodeError};
use simple_mdm::mde_v2::{
    AuthPoliciesType, AuthPolicyType, Discover, DiscoverHeader, DiscoverRequestBody, DeviceType,
    DiscoverResponse, DiscoverResponseBody, DiscoverResponseHeader, DiscoverResult, ReplyToType,
    RequestType, ENROLL_NS,
};
use simple_mdm::schema::XmlMessage;
use simple_mdm::soap::{DefaultHeader, SoapEnvelope, SoapFault};

fn request_document(request_version: Option<&str>, os_edition: &str) -> String {
    let version = match request_version {
        Some(v) => format!("<RequestVersion>{v}</RequestVersion>"),
        None => String::new(),
    };
    format!(
        r#"<?xml version="1.0" encoding="utf-8"?>
<s:Envelope xmlns:a="http://www.w3.org/2005/08/addressing" xmlns:s="http://www.w3.org/2003/05/soap-envelope">
  <s:Header>
    <a:Action s:mustUnderstand="1">http://schemas.microsoft.com/windows/management/2012/01/enrollment/IDiscoveryService/Discover</a:Action>
    <a:MessageID>urn:uuid:748132ec-a575-4329-b01b-6171a9cf8478</a:MessageID>
    <a:ReplyTo><a:Address>http://www.w3.org/2005/08/addressing/anonymous</a:Address></a:ReplyTo>
    <a:To s:mustUnderstand="1">https://mdmwindows.com/EnrollmentServer/Discovery.svc</a:To>
  </s:Header>
  <s:Body>
    <Discover xmlns="http://schemas.microsoft.com/windows/management/2012/01/enrollment">
      <request xmlns:i="http://www.w3.org/2001/XMLSchema-instance">
        <EmailAddress>user@example.com</EmailAddress>
        {version}
        <DeviceType>CIMClient_Windows</DeviceType>
        <ApplicationVersion>10.0.19045.2006</ApplicationVersion>
        <OSEdition>{os_edition}</OSEdition>
        <AuthPolicies>
          <AuthPolicy>OnPremise</AuthPolicy>
          <AuthPolicy>Federated</AuthPolicy>
          <AuthPolicy>Kerberos</AuthPolicy>
        </AuthPolicies>
        <Unexpected><Nested>ignored</Nested></Unexpected>
      </request>
    </Discover>
  </s:Body>
</s:Envelope>"#
    )
}

fn sample_request() -> DiscoverRequestEnvelope {
    SoapEnvelope {
        encoding_style: Some("http://www.w3.org/2003/05/soap-encoding".to_string()),
        header: DiscoverHeader {
            action: "urn:discover".to_string(),
            message_id: "urn:uuid:1 & <2>".to_string(),
            reply_to: ReplyToType { address: "http://example.com/\"reply\"".to_string() },
            to: "https://mdmwindows.com/EnrollmentServer/Discovery.svc".to_string(),
        },
        body: DiscoverRequestBody {
            discover: Discover {
                request: RequestType {
                    email_address: None,
                    request_version: Decimal::new(50, 1),
                    device_type: DeviceType::Unknown("HoloLens".to_string()),
                    application_version: "10.0".to_string(),
                    os_edition: 4294967295,
                    auth_policies: AuthPoliciesType {
                        auth_policy: vec![
                            AuthPolicyType::Certificate,
                            AuthPolicyType::Unknown("Kerberos".to_string()),
                        ],
                    },
                },
            },
        },
    }
}

#[test]
fn discovery_request_is_read() {
    let doc = request_document(Some("4.0"), "48");
    let r = DiscoverRequestEnvelope::from_xml(&doc).unwrap();
    assert_eq!(r.header.message_id, "urn:uuid:748132ec-a575-4329-b01b-6171a9cf8478");
    assert_eq!(r.header.reply_to.address, "http://www.w3.org/2005/08/addressing/anonymous");
    let req = &r.body.discover.request;
    assert_eq!(req.email_address.as_deref(), Some("user@example.com"));
    assert_eq!(req.request_version, Decimal::new(40, 1));
    assert!(matches!(req.device_type, DeviceType::CIMClientWindows));
    assert_eq!(req.application_version, "10.0.19045.2006");
    assert_eq!(req.os_edition, 48);
    let p = &req.auth_policies.auth_policy;
    assert_eq!(p.len(), 3);
    assert!(matches!(p[0], AuthPolicyType::OnPremise));
    assert!(matches!(p[1], AuthPolicyType::Federated));
    assert!(matches!(&p[2], AuthPolicyType::Unknown(s) if s == "Kerberos"));
}

#[test]
fn missing_request_version_is_named() {
    let doc = request_document(None, "48");
    match DiscoverRequestEnvelope::from_xml(&doc) {
        Err(DecodeError::MissingField(name)) => assert_eq!(name, "RequestVersion"),
        other => panic!("unexpected result: {other:?}"),
    }
}

#[test]
fn bad_primitive_is_named() {
    let doc = request_document(Some("4.0"), "forty-eight");
    match DiscoverRequestEnvelope::from_xml(&doc) {
        Err(DecodeError::BadValue { field, text }) => {
            assert_eq!(field, "OSEdition");
            assert_eq!(text, "forty-eight");
        }
        other => panic!("unexpected result: {other:?}"),
    }
    let doc = request_document(Some("4.0"), "4294967296");
    assert!(matches!(DiscoverRequestEnvelope::from_xml(&doc), Err(DecodeError::BadValue { .. })));
    let doc = request_document(Some("four"), "48");
    assert!(matches!(DiscoverRequestEnvelope::from_xml(&doc), Err(DecodeError::BadValue { .. })));
}

#[test]
fn malformed_and_wrong_root_are_rejected() {
    assert!(matches!(DiscoverRequestEnvelope::from_xml("<s:Envelope"), Err(DecodeError::Malformed(_))));
    assert!(matches!(DiscoverRequestEnvelope::from_xml(""), Err(DecodeError::Malformed(_))));
    let doc = r#"<Other xmlns="urn:x"><a/></Other>"#;
    assert!(matches!(DiscoverRequestEnvelope::from_xml(doc), Err(DecodeError::WrongElement(n)) if n == "Other"));
}

#[test]
fn unknown_enumeration_text_round_trips() {
    let doc = request_document(Some("4.0"), "1");
    let r = DiscoverRequestEnvelope::from_xml(&doc).unwrap();
    let p = &r.body.discover.request.auth_policies.auth_policy[2];
    assert_eq!(p.to_wire(), "Kerberos");
    let again = DiscoverRequestEnvelope::from_xml(&r.to_xml()).unwrap();
    assert!(matches!(&again.body.discover.request.auth_policies.auth_policy[2], AuthPolicyType::Unknown(s) if s == "Kerberos"));
    assert!(matches!(AuthPolicyType::from_str("Windows"), AuthPolicyType::Unknown(s) if s == "Windows"));
    assert!(matches!(DeviceType::from_str("WindowsPhone"), DeviceType::WindowsPhone));
    assert!(matches!(AuthPolicyType::default(), AuthPolicyType::Unknown(s) if s == "No valid variants"));
    assert!(matches!(DeviceType::default(), DeviceType::Unknown(s) if s == "No valid variants"));
}

fn on_premise_response() -> DiscoverResponseEnvelope {
    SoapEnvelope {
        encoding_style: None,
        header: DiscoverResponseHeader {
            action: "urn:response".to_string(),
            activity_id: None,
            relates_to: "urn:uuid:1".to_string(),
        },
        body: DiscoverResponseBody {
            discover: DiscoverResponse {
                response: DiscoverResult {
                    auth_policy: AuthPolicyType::OnPremise,
                    enrollment_policy_service_url: Some("https://mdmwindows.com/EnrollmentServer/Policy.svc".to_string()),
                    enrollment_service_url: "https://mdmwindows.com/EnrollmentServer/Enrollment.svc".to_string(),
                    authentication_service_url: None,
                    enrollment_version: Some(Decimal::from_str("4.0").unwrap()),
                },
            },
        },
    }
}

#[test]
fn discovery_response_fields_in_order() {
    let xml = on_premise_response().to_xml();
    assert_eq!(xml.matches("<enroll:DiscoverResult").count(), 1);
    assert!(!xml.contains("AuthenticationServiceUrl"));
    let order = [
        "<enroll:AuthPolicy>OnPremise</enroll:AuthPolicy>",
        "<enroll:EnrollmentPolicyServiceUrl>https://mdmwindows.com/EnrollmentServer/Policy.svc</enroll:EnrollmentPolicyServiceUrl>",
        "<enroll:EnrollmentServiceUrl>https://mdmwindows.com/EnrollmentServer/Enrollment.svc</enroll:EnrollmentServiceUrl>",
        "<enroll:EnrollmentVersion>4.0</enroll:EnrollmentVersion>",
    ];
    let mut at = 0;
    for piece in order {
        let i = xml[at..].find(piece).expect(piece) + at;
        at = i + piece.len();
    }
    assert!(xml.starts_with("<?xml version=\"1.0\" encoding=\"UTF-8\"?><s:Envelope xmlns:s=\"http://www.w3.org/2003/05/soap-envelope\" xmlns:a=\"http://www.w3.org/2005/08/addressing\"><s:Header><a:Action>"));
}

#[test]
fn response_round_trips_through_text() {
    let v = on_premise_response();
    let back = DiscoverResponseEnvelope::from_xml(&v.to_xml()).unwrap();
    let r = &back.body.discover.response;
    assert!(matches!(r.auth_policy, AuthPolicyType::OnPremise));
    assert_eq!(r.enrollment_policy_service_url.as_deref(), Some("https://mdmwindows.com/EnrollmentServer/Policy.svc"));
    assert_eq!(r.enrollment_service_url, "https://mdmwindows.com/EnrollmentServer/Enrollment.svc");
    assert_eq!(r.authentication_service_url, None);
    assert_eq!(r.enrollment_version, Some(Decimal::new(40, 1)));
    assert_eq!(back.header.action, "urn:response");
    assert_eq!(back.header.activity_id, None);
    assert_eq!(back.header.relates_to, "urn:uuid:1");
    assert_eq!(back.encoding_style, None);
}

#[test]
fn request_round_trips_through_text() {
    let v = sample_request();
    let text = v.to_xml();
    let back = DiscoverRequestEnvelope::from_xml(&text).unwrap();
    assert_eq!(back.encoding_style, v.encoding_style);
    assert_eq!(back.header.action, v.header.action);
    assert_eq!(back.header.message_id, "urn:uuid:1 & <2>");
    assert_eq!(back.header.reply_to.address, "http://example.com/\"reply\"");
    assert_eq!(back.header.to, v.header.to);
    let (a, b) = (&back.body.discover.request, &v.body.discover.request);
    assert_eq!(a.email_address, None);
    assert_eq!(a.request_version, b.request_version);
    assert!(matches!(&a.device_type, DeviceType::Unknown(s) if s == "HoloLens"));
    assert_eq!(a.application_version, b.application_version);
    assert_eq!(a.os_edition, 4294967295);
    assert_eq!(a.auth_policies.auth_policy.len(), 2);
    assert!(matches!(a.auth_policies.auth_policy[0], AuthPolicyType::Certificate));
    assert!(text.contains("&amp;") && text.contains("&lt;2&gt;") && text.contains("&quot;reply&quot;"));
}

#[test]
fn default_header_envelope_round_trips() {
    let v: SoapEnvelope<DiscoverResponseBody> = SoapEnvelope {
        encoding_style: None,
        header: DefaultHeader {},
        body: on_premise_response().body,
    };
    let e = v.to_element("s", "http://www.w3.org/2003/05/soap-envelope", "Envelope");
    let text = write_document(&e);
    let root = read_document(&text).unwrap();
    let back = SoapEnvelope::<DiscoverResponseBody>::from_element(&root).unwrap();
    assert_eq!(back.body.discover.response.enrollment_version, Some(Decimal::new(40, 1)));
}

#[test]
fn namespaces_declared_where_first_used() {
    let xml = on_premise_response().to_xml();
    assert_eq!(xml.matches("xmlns:s=").count(), 1);
    assert_eq!(xml.matches("xmlns:a=").count(), 1);
    assert_eq!(xml.matches("xmlns:enroll=").count(), 1);
    assert!(xml.contains(&format!("<enroll:DiscoverResponse xmlns:enroll=\"{ENROLL_NS}\"><enroll:DiscoverResult>")));
}

#[test]
fn discovery_handler_statuses() {
    let (status, body) = handle_discovery(&request_document(Some("4.0"), "48"));
    assert_eq!(status, 200);
    let response = DiscoverResponseEnvelope::from_xml(&body).unwrap();
    assert_eq!(response.header.relates_to, "urn:uuid:748132ec-a575-4329-b01b-6171a9cf8478");
    assert_eq!(response.body.discover.response.enrollment_version, Some(Decimal::new(40, 1)));
    let (status, body) = handle_discovery(&request_document(None, "48"));
    assert_eq!(status, 400);
    assert_eq!(body, "Bad Request");
    let r = discovery_response(&DiscoverRequestEnvelope::from_xml(&request_document(Some("4.0"), "48")).unwrap());
    assert!(matches!(r.body.discover.response.auth_policy, AuthPolicyType::OnPremise));
}

#[test]
fn fault_display() {
    let f = SoapFault { fault_code: Some("s:Sender".to_string()), fault_string: Some("bad".to_string()) };
    assert_eq!(f.to_string(), "s:Sender: bad");
    let f = SoapFault { fault_code: Some("s:Sender".to_string()), fault_string: None };
    assert_eq!(f.to_string(), "s:Sender");
    let f = SoapFault { fault_code: None, fault_string: Some("bad".to_string()) };
    assert_eq!(f.to_string(), "bad");
    assert_eq!(SoapFault::default().to_string(), "");
}

#[test]
fn respond_maps_read_failures_to_bad_request() {
    let (status, body) = respond(Err(DecodeError::MissingField("RequestVersion".to_string())));
    assert_eq!(status, 400);
    assert_eq!(body, "Bad Request");
    let (status, body) = respond(Ok(sample_request()));
    assert_eq!(status, 200);
    assert!(body.contains("<a:RelatesTo>urn:uuid:1 &amp; &lt;2&gt;</a:RelatesTo>"));
}

#[test]
fn request_read_names_missing_version() {
    let doc = request_document(None, "+48");
    let root = read_document(&doc).unwrap();
    let body = &root.children[1];
    let discover = &body.children[0];
    let request = &discover.children[0];
    match RequestType::read(request) {
        Err(DecodeError::MissingField(name)) => assert_eq!(name, "RequestVersion"),
        other => panic!("unexpected result: {other:?}"),
    }
    let doc = request_document(Some("4.0"), "+48");
    let r = DiscoverRequestEnvelope::from_xml(&doc).unwrap();
    assert_eq!(r.body.discover.request.os_edition, 48);
}

#[test]
fn bad_timezone_offset_is_rejected() {
    assert!(simple_mdm::datetime::DateTime::from_str("2020-03-07T04:40:00+24:00").is_err());
    assert!(simple_mdm::datetime::DateTime::from_str("2020-02-30T04:40:00Z").is_err());
}

#[test]
fn fault_round_trips_through_text() {
    let f = SoapFault { fault_code: Some("s:Receiver".to_string()), fault_string: Some("try later".to_string()) };
    let text = write_document(&f.to_element("s", "http://www.w3.org/2003/05/soap-envelope", "Fault"));
    assert!(text.contains("<faultcode>s:Receiver</faultcode>") || text.contains("<faultcode xmlns=\"\">s:Receiver</faultcode>"));
    let back = SoapFault::from_element(&read_document(&text).unwrap()).unwrap();
    assert_eq!(back.fault_code.as_deref(), Some("s:Receiver"));
    assert_eq!(back.fault_string.as_deref(), Some("try later"));
    let empty = SoapFault::from_element(&read_document("<s:Fault xmlns:s=\"urn:s\"/>").unwrap()).unwrap();
    assert_eq!(empty.to_string(), "");
}

#[test]
fn signed_decimal_and_bad_decimal_in_request() {
    let doc = request_document(Some("+4.0"), "48");
    let r = DiscoverRequestEnvelope::from_xml(&doc).unwrap();
    assert_eq!(r.body.discover.request.request_version, Decimal::new(40, 1));
    let doc = request_document(Some("1.2.3"), "48");
    match DiscoverRequestEnvelope::from_xml(&doc) {
        Err(DecodeError::BadValue { field, text }) => {
            assert_eq!(field, "RequestVersion");
            assert_eq!(text, "1.2.3");
        }
        other => panic!("unexpected result: {other:?}"),
    }
}

#[test]
fn answer_depends_only_on_message_id() {
    let with_email = handle_discovery(&request_document(Some("4.0"), "48"));
    let without_email = handle_discovery(&request_document(Some("4.0"), "48").replace("<EmailAddress>user@example.com</EmailAddress>", ""));
    assert_eq!(with_email, without_email);
    assert_eq!(with_email.0, 200);
    assert_eq!(with_email.1.matches("<enroll:DiscoverResult>").count(), 1);
}

#[test]
fn discovery_reader_names_missing_version() {
    match simple_mdm::discovery::read_discovery_request(&request_document(None, "48")) {
        Err(DecodeError::MissingField(name)) => assert_eq!(name, "RequestVersion"),
        other => panic!("unexpected result: {other:?}"),
    }
    assert!(simple_mdm::discovery::read_discovery_request(&request_document(Some("4.0"), "48")).is_ok());
}

#[test]
fn whitespace_only_text_is_kept() {
    let doc = request_document(Some("4.0"), "48").replace(
        "<ApplicationVersion>10.0.19045.2006</ApplicationVersion>",
        "<ApplicationVersion>   </ApplicationVersion>",
    );
    let r = DiscoverRequestEnvelope::from_xml(&doc).unwrap();
    assert_eq!(r.body.discover.request.application_version, "   ");
}

#[test]
fn answer_ignores_unknown_elements_and_enum_values() {
    let base = handle_discovery(&request_document(Some("4.0"), "48"));
    let odd = request_document(Some("4.0"), "48")
        .replace("<DeviceType>CIMClient_Windows</DeviceType>", "<DeviceType>HoloLens</DeviceType>")
        .replace("<s:Body>", "<s:Extra xmlns:z=\"urn:z\">1</s:Extra><s:Body>");
    assert_eq!(handle_discovery(&odd), base);
}
