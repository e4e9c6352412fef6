use simple_mdm::datetime::{DateTime, DateTimeFields};
use simple_mdm::decimal::Decimal;
use simple_mdm::markup::{bare, find_child, leaf, push_child, read_document, write_document, Element};
use xml::reader::{Error as XmlError, XmlEvent};

const TEST_NS: &str = "test";

fn fields(offset_seconds: i32) -> DateTimeFields {
    DateTimeFields {
        year: 2020,
        month: 3,
        day: 7,
        hour: 4,
        minute: 40,
        second: 0,
        nanosecond: 0,
        offset_seconds,
    }
}

fn assert_xml_eq(actual: &str, expected: &str) {
    for (a, e) in without_whitespaces(actual).zip(without_whitespaces(expected)) {
        assert_eq!(a, e);
    }
}

fn without_whitespaces(expected: &str) -> impl Iterator<Item = Result<XmlEvent, XmlError>> + '_ {
    xml::EventReader::new(expected.as_bytes())
        .into_iter()
        .filter(|e| !matches!(e, Ok(XmlEvent::Whitespace(_))))
}

fn child_text<'a>(e: &'a Element, name: &str) -> &'a str {
    let i = find_child(e, TEST_NS, name).unwrap();
    e.children[i].text.as_str()
}

#[test]
fn datetime_parse_test() {
    // No timezone.
    let dt = DateTime::new(fields(0));
    assert_eq!(DateTime::from_str("2020-03-07T04:40:00"), Ok(dt.clone()));
    // Timezone "Z".
    assert_eq!(DateTime::from_str("2020-03-07T04:40:00Z"), Ok(dt));

    // Positive offset.
    let dt = DateTime::new(fields(6 * 3600 + 30 * 60));
    assert_eq!(DateTime::from_str("2020-03-07T04:40:00+06:30"), Ok(dt));

    // Negative offset.
    let dt = DateTime::new(fields(-(6 * 3600 + 30 * 60)));
    assert_eq!(DateTime::from_str("2020-03-07T04:40:00-06:30"), Ok(dt));
}

#[test]
fn datetime_display_test() {
    assert_eq!(DateTime::new(fields(0)).to_string(), "2020-03-07T04:40:00+00:00");
    assert_eq!(
        DateTime::new(fields(6 * 3600 + 30 * 60)).to_string(),
        "2020-03-07T04:40:00+06:30"
    );
    assert_eq!(
        DateTime::new(fields(-(6 * 3600 + 30 * 60))).to_string(),
        "2020-03-07T04:40:00-06:30"
    );
}

#[test]
fn datetime_serialize_test() {
    let expected = r#"<?xml version="1.0" encoding="UTF-8"?>
        <t:Message xmlns:t="test">
            <t:CreatedAt>2020-03-07T04:40:00+06:30</t:CreatedAt>
            <t:Text>Hello world</t:Text>
        </t:Message>
        "#;
    let created_at = DateTime::new(fields(6 * 3600 + 30 * 60));
    let mut m = bare("t", TEST_NS, "Message");
    push_child(&mut m, leaf("t", TEST_NS, "CreatedAt", created_at.to_string()));
    push_child(&mut m, leaf("t", TEST_NS, "Text", "Hello world".to_string()));
    let actual = write_document(&m);
    assert_xml_eq(&actual, expected);
    assert_eq!(
        actual,
        "<?xml version=\"1.0\" encoding=\"UTF-8\"?><t:Message xmlns:t=\"test\"><t:CreatedAt>2020-03-07T04:40:00+06:30</t:CreatedAt><t:Text>Hello world</t:Text></t:Message>"
    );
}

#[test]
fn datetime_deserialize_test() {
    let s = r#"<?xml version="1.0" encoding="utf-8"?>
        <t:Message xmlns:t="test">
            <t:CreatedAt>2020-03-07T04:40:00-06:30</t:CreatedAt>
            <t:Text>Hello world</t:Text>
        </t:Message>
        "#;
    let m = read_document(s).unwrap();
    let created_at = DateTime::from_str(child_text(&m, "CreatedAt")).unwrap();
    assert_eq!(created_at.as_internal(), fields(-(6 * 3600 + 30 * 60)));
    assert_eq!(child_text(&m, "Text"), "Hello world");
}

#[test]
fn decimal_serialize_test() {
    let expected = r#"<?xml version="1.0" encoding="UTF-8"?>
        <t:DecimalPair xmlns:t="test">
            <t:First>0.01234</t:First>
            <t:Second>-12.34</t:Second>
        </t:DecimalPair>
        "#;
    let mut pair = bare("t", TEST_NS, "DecimalPair");
    push_child(&mut pair, leaf("t", TEST_NS, "First", Decimal::new(1234, 5).to_string()));
    push_child(&mut pair, leaf("t", TEST_NS, "Second", Decimal::new(-1234, 2).to_string()));
    let actual = write_document(&pair);
    assert_xml_eq(&actual, expected);
    assert!(actual.contains("<t:First>0.01234</t:First><t:Second>-12.34</t:Second>"));
}

#[test]
fn decimal_deserialize_test() {
    // Value "+0.01234" is used to check optional plus sign deserialization.
    let s = r#"<?xml version="1.0" encoding="UTF-8"?>
        <t:DecimalPair xmlns:t="test">
            <t:First>+0.01234</t:First>
            <t:Second>-12.34</t:Second>
        </t:DecimalPair>
        "#;
    let pair = read_document(s).unwrap();
    let first = Decimal::from_str(child_text(&pair, "First")).unwrap();
    let second = Decimal::from_str(child_text(&pair, "Second")).unwrap();
    assert_eq!(first, Decimal::new(1234, 5));
    assert_eq!(second, Decimal::new(-1234, 2));
}

#[test]
fn datetime_missing_timezone_is_utc() {
    assert_eq!(
        DateTime::from_str("2020-03-07T04:40:00"),
        DateTime::from_str("2020-03-07T04:40:00Z")
    );
    assert_eq!(
        DateTime::from_str("2020-03-07T04:40:00").unwrap().to_string(),
        "2020-03-07T04:40:00+00:00"
    );
}

#[test]
fn datetime_utc_renders_numeric_offset() {
    let s = DateTime::from_str("2020-03-07T04:40:00Z").unwrap().to_string();
    assert!(s.ends_with("+00:00"));
    assert!(!s.ends_with('Z'));
}

#[test]
fn datetime_canonical_text_is_stable() {
    for text in [
        "2020-03-07T04:40:00+06:30",
        "2020-03-07T04:40:00-06:30",
        "1999-12-31T23:59:60.5Z",
        "2024-02-29T00:00:00.000123456+23:59",
        "0001-01-01t00:00:00.25-00:00",
    ] {
        let first = DateTime::from_str(text).unwrap();
        let again = DateTime::from_str(&first.to_string()).unwrap();
        assert_eq!(first.as_internal(), again.as_internal());
        assert_eq!(first.to_string(), again.to_string());
    }
}

#[test]
fn datetime_fraction_and_leap_second() {
    let d = DateTime::from_str("1999-12-31T23:59:60.5Z").unwrap();
    assert_eq!(d.as_internal().second, 59);
    assert_eq!(d.as_internal().nanosecond, 1_500_000_000);
    assert_eq!(d.to_string(), "1999-12-31T23:59:60.500+00:00");
    let d = DateTime::from_str("2020-03-07T04:40:00.000001-01:00").unwrap();
    assert_eq!(d.to_string(), "2020-03-07T04:40:00.000001-01:00");
}

#[test]
fn datetime_rejects_bad_text() {
    let e = DateTime::from_str("2020-13-07T04:40:00Z").unwrap_err();
    assert_eq!(e.text, "2020-13-07T04:40:00Z");
    let e = DateTime::from_str("yesterday").unwrap_err();
    assert_eq!(e.text, "yesterday");
}

#[test]
fn decimal_canonical_text_round_trips() {
    for (m, k) in [(0i128, 0u32), (0, 3), (1234, 5), (-1234, 2), (40, 1), (7, 0), (-5, 28), (79228162514264337593543950335, 0), (-79228162514264337593543950335, 28)] {
        let d = Decimal::new(m, k);
        let text = d.to_string();
        let back = Decimal::from_str(&text).unwrap();
        assert_eq!(back, d);
        assert_eq!(back.to_string(), text);
    }
    assert_eq!(Decimal::new(0, 3).to_string(), "0.000");
    assert_eq!(Decimal::new(-5, 3).to_string(), "-0.005");
    assert_eq!(Decimal::new(40, 1).to_string(), "4.0");
}

#[test]
fn decimal_plus_sign_is_accepted() {
    assert_eq!(Decimal::from_str("+0.01234"), Decimal::from_str("0.01234"));
    assert_eq!(Decimal::from_str("+0.01234").unwrap().to_string(), "0.01234");
}

#[test]
fn decimal_rejects_bad_text() {
    let e = Decimal::from_str("1.2.3").unwrap_err();
    assert_eq!(e.text, "1.2.3");
    assert!(Decimal::from_str("abc").is_err());
    assert!(Decimal::from_str("").is_err());
}

#[test]
fn reader_joins_text_and_keeps_attributes() {
    let doc = r#"<?xml version="1.0"?>
<t:a xmlns:t="test" xmlns:u="other" u:k="v&amp;w" plain="1">x<![CDATA[<y>]]>z<t:b/><!-- note --><t:c>1</t:c></t:a>"#;
    let root = read_document(doc).unwrap();
    assert_eq!(root.namespace, "test");
    assert_eq!(root.name, "a");
    assert_eq!(root.text, "x<y>z");
    assert_eq!(root.attributes.len(), 2);
    assert_eq!(root.attributes[0].namespace, "other");
    assert_eq!(root.attributes[0].name, "k");
    assert_eq!(root.attributes[0].value, "v&w");
    assert_eq!(root.attributes[1].namespace, "");
    assert_eq!(root.attributes[1].value, "1");
    assert_eq!(root.children.len(), 2);
    assert_eq!(child_text(&root, "c"), "1");
    assert!(find_child(&root, TEST_NS, "d").is_none());
}

#[test]
fn reader_rejects_unclosed_and_empty_documents() {
    assert!(read_document("<a><b></a>").is_err());
    assert!(read_document("").is_err());
    assert!(read_document("<?xml version=\"1.0\"?>").is_err());
}

#[test]
fn writer_escapes_and_declares_each_prefix_once() {
    let mut root = bare("p", "urn:p", "root");
    push_child(&mut root, leaf("p", "urn:p", "x", "a<b>&\"c\"".to_string()));
    push_child(&mut root, leaf("q", "urn:q", "y", String::new()));
    push_child(&mut root, leaf("q", "urn:q", "z", "2".to_string()));
    let text = write_document(&root);
    assert_eq!(
        text,
        "<?xml version=\"1.0\" encoding=\"UTF-8\"?><p:root xmlns:p=\"urn:p\"><p:x>a&lt;b&gt;&amp;&quot;c&quot;</p:x><q:y xmlns:q=\"urn:q\"></q:y><q:z xmlns:q=\"urn:q\">2</q:z></p:root>"
    );
    let back = read_document(&text).unwrap();
    assert_eq!(back.children[0].text, "a<b>&\"c\"");
    assert_eq!(back.children[2].namespace, "urn:q");
}

#[test]
fn datetime_z_reads_as_utc() {
    let z = DateTime::from_str("2020-03-07T04:40:00.25Z").unwrap();
    assert_eq!(z.as_internal().offset_seconds, 0);
    assert_eq!(z.to_string(), "2020-03-07T04:40:00.250+00:00");
    assert_eq!(Some(z), DateTime::from_str("2020-03-07T04:40:00.250+00:00").ok());
    assert!(Decimal::from_str("").is_err());
}

#[test]
fn decimal_rejects_other_lexical_forms() {
    for bad in ["1_000", "1e3", ".", "+", "-", "--1", " 1", "12a", "1.2.3"] {
        assert!(Decimal::from_str(bad).is_err(), "{bad}");
    }
    assert_eq!(Decimal::from_str(".5").unwrap(), Decimal::new(5, 1));
    assert_eq!(Decimal::from_str("-0.005").unwrap(), Decimal::new(-5, 3));
}
