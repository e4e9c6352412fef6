use simple_mdm::datetime::{DateTime, DateTimeFields};
use simple_mdm::markup::{read_document, write_document, DecodeError};
use simple_mdm::schema::XmlMessage;
use simple_mdm::xcep::{
    Attributes, Ca, Cacollection, Cauri, Cauricollection, CertificateEnrollmentPolicy,
    CertificateValidity, Client, ClientLastUpdate, CryptoProviders, EnrollmentPermission,
    Extension, ExtensionCollection, FilterOIDCollection, GetPolicies, GetPoliciesRequestBody,
    GetPoliciesResponse, KeyArchivalAttributes, Oid, Oidcollection, OidreferenceCollection,
    PolicyCollection, PrivateKeyAttributes, Rarequirements, RequestFilter, Response, Revision,
    SupersededPolicies, CareferenceCollection, XCEP_NS,
};

fn policy() -> CertificateEnrollmentPolicy {
    CertificateEnrollmentPolicy {
        policy_oid_reference: -7,
        c_as: Some(CareferenceCollection { c_a_reference: vec![0, -2147483648, 2147483647] }),
        attributes: Attributes {
            common_name: "Device".to_string(),
            policy_schema: 3,
            certificate_validity: CertificateValidity {
                validity_period_seconds: 18446744073709551615,
                renewal_period_seconds: 0,
            },
            permission: EnrollmentPermission { enroll: true, auto_enroll: false },
            private_key_attributes: vec![PrivateKeyAttributes {
                minimal_key_length: 2048,
                key_spec: Some(1),
                key_usage_property: None,
                permissions: Some("D:P".to_string()),
                algorithm_oid_reference: None,
                crypto_providers: Some(CryptoProviders {
                    provider: vec!["Microsoft Software Key Storage Provider".to_string(), "Other".to_string()],
                }),
            }],
            revision: Revision { major_revision: 101, minor_revision: 0 },
            superseded_policies: Some(SupersededPolicies { common_name: vec![] }),
            private_key_flags: Some(16),
            subject_name_flags: None,
            enrollment_flags: Some(0),
            general_flags: None,
            hash_algorithm_oid_reference: Some(-1),
            r_a_requirements: Some(Rarequirements {
                r_a_signatures: 0,
                r_aek_us: Some(OidreferenceCollection { o_id_reference: vec![5] }),
                r_a_policies: None,
            }),
            key_archival_attributes: vec![KeyArchivalAttributes {
                symmetric_algorithm_oid_reference: 4,
                symmetric_algorithm_key_length: 256,
            }],
            extensions: Some(ExtensionCollection {
                extension: vec![Extension { o_id_reference: 6, critical: true, value: Some("AQ==".to_string()) }],
            }),
        },
    }
}

fn policies_response() -> GetPoliciesResponse {
    GetPoliciesResponse {
        response: Some(Response {
            policy_id: "{6A1D0A9E}".to_string(),
            policy_friendly_name: None,
            next_update_hours: Some(8),
            policies_not_changed: Some(false),
            policies: Some(PolicyCollection { policy: vec![policy()] }),
        }),
        c_as: Some(Cacollection {
            c_a: vec![Ca {
                uris: Cauricollection {
                    c_auri: vec![Cauri {
                        client_authentication: 1,
                        uri: "https://ca.example.com/CES".to_string(),
                        priority: Some(1),
                        renewal_only: false,
                    }],
                },
                certificate: "MIIB".to_string(),
                enroll_permission: true,
                c_a_reference_id: 0,
            }],
        }),
        o_i_ds: Some(Oidcollection {
            o_id: vec![Oid {
                value: "1.3.14.3.2.29".to_string(),
                group: 1,
                o_id_reference_id: 5,
                default_name: Some("sha1RSA".to_string()),
            }],
        }),
    }
}

#[test]
fn policies_response_round_trips_through_text() {
    let v = policies_response();
    let text = write_document(&v.to_element("xcep", XCEP_NS, "GetPoliciesResponse"));
    assert!(text.contains("<xcep:policyOIDReference>-7</xcep:policyOIDReference>"));
    assert!(text.contains("<xcep:validityPeriodSeconds>18446744073709551615</xcep:validityPeriodSeconds>"));
    assert!(text.contains("<xcep:enroll>true</xcep:enroll><xcep:autoEnroll>false</xcep:autoEnroll>"));
    assert!(!text.contains("policyFriendlyName"));
    let back = GetPoliciesResponse::from_element(&read_document(&text).unwrap()).unwrap();
    let r = back.response.unwrap();
    assert_eq!(r.policy_id, "{6A1D0A9E}");
    assert_eq!(r.policy_friendly_name, None);
    assert_eq!(r.next_update_hours, Some(8));
    assert_eq!(r.policies_not_changed, Some(false));
    let p = &r.policies.unwrap().policy[0];
    assert_eq!(p.policy_oid_reference, -7);
    assert_eq!(p.c_as.as_ref().unwrap().c_a_reference, vec![0, -2147483648, 2147483647]);
    let a = &p.attributes;
    assert_eq!(a.common_name, "Device");
    assert_eq!(a.policy_schema, 3);
    assert_eq!(a.certificate_validity.validity_period_seconds, 18446744073709551615);
    assert!(a.permission.enroll && !a.permission.auto_enroll);
    assert_eq!(a.private_key_attributes.len(), 1);
    let k = &a.private_key_attributes[0];
    assert_eq!(k.minimal_key_length, 2048);
    assert_eq!(k.key_spec, Some(1));
    assert_eq!(k.key_usage_property, None);
    assert_eq!(k.permissions.as_deref(), Some("D:P"));
    assert_eq!(k.crypto_providers.as_ref().unwrap().provider, vec!["Microsoft Software Key Storage Provider", "Other"]);
    assert_eq!(a.revision.major_revision, 101);
    assert!(a.superseded_policies.as_ref().unwrap().common_name.is_empty());
    assert_eq!(a.private_key_flags, Some(16));
    assert_eq!(a.subject_name_flags, None);
    assert_eq!(a.hash_algorithm_oid_reference, Some(-1));
    assert_eq!(a.r_a_requirements.as_ref().unwrap().r_aek_us.as_ref().unwrap().o_id_reference, vec![5]);
    assert_eq!(a.key_archival_attributes[0].symmetric_algorithm_key_length, 256);
    let x = &a.extensions.as_ref().unwrap().extension[0];
    assert!(x.critical);
    assert_eq!(x.value.as_deref(), Some("AQ=="));
    let ca = &back.c_as.unwrap().c_a[0];
    assert_eq!(ca.uris.c_auri[0].uri, "https://ca.example.com/CES");
    assert_eq!(ca.uris.c_auri[0].priority, Some(1));
    assert!(ca.enroll_permission);
    let oid = &back.o_i_ds.unwrap().o_id[0];
    assert_eq!(oid.value, "1.3.14.3.2.29");
    assert_eq!(oid.default_name.as_deref(), Some("sha1RSA"));
}

#[test]
fn get_policies_request_with_nil_last_update() {
    let doc = r#"<GetPolicies xmlns="http://schemas.microsoft.com/windows/pki/2009/01/enrollmentpolicy">
  <client>
    <lastUpdate xsi:nil="true" xmlns:xsi="http://www.w3.org/2001/XMLSchema-instance"></lastUpdate>
    <preferredLanguage xsi:nil="true" xmlns:xsi="http://www.w3.org/2001/XMLSchema-instance"></preferredLanguage>
  </client>
  <requestFilter xsi:nil="true" xmlns:xsi="http://www.w3.org/2001/XMLSchema-instance"></requestFilter>
</GetPolicies>"#;
    let g = GetPolicies::from_element(&read_document(doc).unwrap()).unwrap();
    assert_eq!(g.client.client_last_update.is_null, Some(true));
    assert!(g.client.client_last_update.value.is_none());
}

#[test]
fn client_last_update_with_date() {
    let fields = DateTimeFields { year: 2024, month: 1, day: 2, hour: 3, minute: 4, second: 5, nanosecond: 0, offset_seconds: 3600 };
    let body = GetPoliciesRequestBody {
        get_policies: GetPolicies {
            client: Client { client_last_update: ClientLastUpdate { is_null: Some(false), value: Some(DateTime::new(fields)) } },
        },
    };
    let text = write_document(&body.to_element("s", "http://www.w3.org/2003/05/soap-envelope", "Body"));
    assert!(text.contains("<xcep:lastUpdate xmlns:xsi=\"http://www.w3.org/2001/XMLSchema-instance\" xsi:nil=\"false\">2024-01-02T03:04:05+01:00</xcep:lastUpdate>"));
    let back = GetPoliciesRequestBody::from_element(&read_document(&text).unwrap()).unwrap();
    let last = back.get_policies.client.client_last_update;
    assert_eq!(last.is_null, Some(false));
    assert_eq!(last.value.unwrap().as_internal(), fields);
}

#[test]
fn policy_fields_are_checked() {
    let doc = r#"<r xmlns="http://schemas.microsoft.com/windows/pki/2009/01/enrollmentpolicy"><majorRevision>1</majorRevision></r>"#;
    match Revision::from_element(&read_document(doc).unwrap()) {
        Err(DecodeError::MissingField(n)) => assert_eq!(n, "minorRevision"),
        other => panic!("unexpected result: {other:?}"),
    }
    let doc = r#"<r xmlns="http://schemas.microsoft.com/windows/pki/2009/01/enrollmentpolicy"><enroll>yes</enroll><autoEnroll>false</autoEnroll></r>"#;
    assert!(matches!(EnrollmentPermission::from_element(&read_document(doc).unwrap()), Err(DecodeError::BadValue { .. })));
    let doc = r#"<r xmlns="http://schemas.microsoft.com/windows/pki/2009/01/enrollmentpolicy"><oIDReference>2147483648</oIDReference></r>"#;
    assert!(matches!(OidreferenceCollection::from_element(&read_document(doc).unwrap()), Err(DecodeError::BadValue { .. })));
    let doc = r#"<r xmlns="http://schemas.microsoft.com/windows/pki/2009/01/enrollmentpolicy"><policyOIDs><oid>1.2</oid><oid>3.4</oid></policyOIDs></r>"#;
    let f = RequestFilter::from_element(&read_document(doc).unwrap()).unwrap();
    assert_eq!(f.policy_oi_ds.unwrap().oid, vec!["1.2", "3.4"]);
    let empty = FilterOIDCollection { oid: vec![] };
    assert!(FilterOIDCollection::from_element(&empty.to_element("xcep", XCEP_NS, "policyOIDs")).unwrap().oid.is_empty());
}

#[test]
fn bad_last_update_names_field_and_text() {
    let doc = r#"<lastUpdate xmlns="http://schemas.microsoft.com/windows/pki/2009/01/enrollmentpolicy">Hello world</lastUpdate>"#;
    match ClientLastUpdate::read(&read_document(doc).unwrap()) {
        Err(DecodeError::BadValue { field, text }) => {
            assert_eq!(field, "lastUpdate");
            assert_eq!(text, "Hello world");
        }
        other => panic!("unexpected result: {other:?}"),
    }
    let doc = r#"<lastUpdate xmlns:xsi="http://www.w3.org/2001/XMLSchema-instance" xsi:nil="maybe"/>"#;
    match ClientLastUpdate::from_element(&read_document(doc).unwrap()) {
        Err(DecodeError::BadValue { field, text }) => {
            assert_eq!(field, "nil");
            assert_eq!(text, "maybe");
        }
        other => panic!("unexpected result: {other:?}"),
    }
}
