use xml::attribute::OwnedAttribute;
use xml::common::TextPosition;
use xml::name::OwnedName;
use xml::reader::config::{ParserConfig, ParserConfig2};
use xml::reader::events::XmlEvent;
use xml::reader::lexer::CharReader;
use xml::reader::parser::{DoctypeSubstate, PullParser, Result, State};

fn chars(s: &str) -> Vec<char> {
    s.chars().collect()
}

fn string(v: &Vec<char>) -> String {
    v.iter().collect()
}

fn new_parser() -> PullParser {
    PullParser::new(ParserConfig2::from(ParserConfig::new()))
}

fn test_data(d: &str) -> (CharReader, PullParser) {
    (CharReader::new(chars(d)), new_parser())
}

fn local(s: &str) -> OwnedName {
    OwnedName::local(chars(s))
}

#[test]
fn issue_3_semicolon_in_attribute_value() {
    let (mut r, mut p) = test_data(
        r#"
            <a attr="zzz;zzz" />
        "#,
    );

    assert!(matches!(p.next(&mut r), Ok(XmlEvent::StartDocument { .. })));
    match p.next(&mut r) {
        Ok(XmlEvent::StartElement { ref name, ref attributes, ref namespace }) => {
            assert!(*name == local("a"));
            assert!(attributes.len() == 1);
            assert!(attributes[0] == OwnedAttribute::new(local("attr"), chars("zzz;zzz")));
            assert!(namespace.is_essentially_empty());
        },
        e => panic!("Unexpected event: {:?}", e),
    }
    match p.next(&mut r) {
        Ok(XmlEvent::EndElement { ref name }) => assert!(*name == local("a")),
        e => panic!("Unexpected event: {:?}", e),
    }
    assert!(matches!(p.next(&mut r), Ok(XmlEvent::EndDocument)));
}

#[test]
fn issue_140_entity_reference_inside_tag() {
    let (mut r, mut p) = test_data(
        r#"
            <bla>&#9835;</bla>
        "#,
    );

    assert!(matches!(p.next(&mut r), Ok(XmlEvent::StartDocument { .. })));
    match p.next(&mut r) {
        Ok(XmlEvent::StartElement { ref name, .. }) => assert!(*name == local("bla")),
        e => panic!("Unexpected event: {:?}", e),
    }
    match p.next(&mut r) {
        Ok(XmlEvent::Characters(ref s)) => assert!(string(s) == "\u{266b}"),
        e => panic!("Unexpected event: {:?}", e),
    }
    match p.next(&mut r) {
        Ok(XmlEvent::EndElement { ref name, .. }) => assert!(*name == local("bla")),
        e => panic!("Unexpected event: {:?}", e),
    }
    assert!(matches!(p.next(&mut r), Ok(XmlEvent::EndDocument)));
}

#[test]
fn issue_220_comment() {
    let (mut r, mut p) = test_data(r#"<x><!-- <!--></x>"#);
    assert!(matches!(p.next(&mut r), Ok(XmlEvent::StartDocument { .. })));
    assert!(matches!(p.next(&mut r), Ok(XmlEvent::StartElement { .. })));
    assert!(matches!(p.next(&mut r), Ok(XmlEvent::EndElement { .. })));
    assert!(matches!(p.next(&mut r), Ok(XmlEvent::EndDocument)));

    let (mut r, mut p) = test_data(r#"<x><!-- <!---></x>"#);
    assert!(matches!(p.next(&mut r), Ok(XmlEvent::StartDocument { .. })));
    assert!(matches!(p.next(&mut r), Ok(XmlEvent::StartElement { .. })));
    assert!(matches!(p.next(&mut r), Err(_))); // ---> is forbidden in comments

    let mut config = ParserConfig2::from(ParserConfig::new());
    config.c.ignore_comments = false;
    let mut r = CharReader::new(chars(r#"<x><!--<text&x;> <!--></x>"#));
    let mut p = PullParser::new(config);
    assert!(matches!(p.next(&mut r), Ok(XmlEvent::StartDocument { .. })));
    assert!(matches!(p.next(&mut r), Ok(XmlEvent::StartElement { .. })));
    match p.next(&mut r) {
        Ok(XmlEvent::Comment(s)) => assert!(string(&s) == "<text&x;> <!"),
        e => panic!("Unexpected event: {:?}", e),
    }
    assert!(matches!(p.next(&mut r), Ok(XmlEvent::EndElement { .. })));
    assert!(matches!(p.next(&mut r), Ok(XmlEvent::EndDocument)));
}

#[test]
fn opening_tag_in_attribute_value() {
    let (mut r, mut p) = test_data(
        r#"
            <a attr="zzz<zzz" />
        "#,
    );

    assert!(matches!(p.next(&mut r), Ok(XmlEvent::StartDocument { .. })));
    match p.next(&mut r) {
        Err(ref e) => {
            assert!(string(e.msg()) == "Unexpected token inside attribute value: <");
            assert!(e.position() == TextPosition { row: 1, column: 24 });
        },
        e => panic!("Unexpected event: {:?}", e),
    }
}

#[test]
fn reference_err() {
    let (mut r, mut p) = test_data(
        r#"
            <a>&&amp;</a>
        "#,
    );

    assert!(matches!(p.next(&mut r), Ok(XmlEvent::StartDocument { .. })));
    assert!(matches!(p.next(&mut r), Ok(XmlEvent::StartElement { .. })));
    assert!(matches!(p.next(&mut r), Err(_)));
}

#[test]
fn state_size() {
    assert_eq!(2, std::mem::size_of::<State>());
    assert_eq!(1, std::mem::size_of::<DoctypeSubstate>());
}

// ---------------------------------------------------------------------------
// Further scenarios of the parser.

/// Every event of `doc` up to and including the first error or the end of
/// the document, each with the position the parser reports for it.
fn all_events(doc: &str, config: ParserConfig2) -> Vec<(TextPosition, Result)> {
    let mut r = CharReader::new(chars(doc));
    let mut p = PullParser::new(config);
    let mut out = Vec::new();
    loop {
        let e = p.next(&mut r);
        let done = matches!(e, Err(_) | Ok(XmlEvent::EndDocument));
        out.push((p.position(), e));
        if done {
            return out;
        }
        assert!(out.len() < 1000);
    }
}

fn default_config() -> ParserConfig2 {
    ParserConfig2::new()
}

fn last_error(doc: &str, config: ParserConfig2) -> (TextPosition, String) {
    let evs = all_events(doc, config);
    match evs.last() {
        Some((_, Err(e))) => (e.position(), string(e.msg())),
        other => panic!("expected an error, got {:?}", other),
    }
}

fn pos(row: u64, column: u64) -> TextPosition {
    TextPosition { row, column }
}

#[test]
fn eof_inside_declaration() {
    let (p, m) = last_error("<?xml", default_config());
    assert_eq!(p, pos(0, 5));
    assert_eq!(m, "Unexpected end of stream");
}

#[test]
fn bad_token_in_declaration() {
    let (p, m) = last_error("<?xml&.,", default_config());
    assert_eq!(p, pos(0, 5));
    assert_eq!(m, "Unexpected token: <?xml&");
}

#[test]
fn dashes_inside_comment() {
    assert_eq!(
        texts("<!-- comment -- --><hello/>", default_config()),
        vec!["StartDocument(Version10, UTF-8)".to_string(), "1:14 Unexpected token '--' before ' '".to_string()]
    );
    assert_eq!(
        texts("<!-- comment ---><hello/>", default_config()),
        vec!["StartDocument(Version10, UTF-8)".to_string(), "1:14 Unexpected token '--' before '-'".to_string()]
    );
}

#[test]
fn positions_of_events() {
    let cfg = ParserConfig2::from(ParserConfig::new().trim_whitespace(true));
    let evs = all_events("\t<a>\t<b/></a>", cfg);
    let got: Vec<(TextPosition, String)> = evs
        .iter()
        .map(|(p, e)| {
            let s = match e {
                Ok(XmlEvent::StartDocument { .. }) => "StartDocument".to_string(),
                Ok(XmlEvent::StartElement { name, .. }) => format!("StartElement({})", string(&name.local_name)),
                Ok(XmlEvent::EndElement { name }) => format!("EndElement({})", string(&name.local_name)),
                Ok(XmlEvent::EndDocument) => "EndDocument".to_string(),
                other => format!("{:?}", other),
            };
            (*p, s)
        })
        .collect();
    assert_eq!(
        got,
        vec![
            (pos(0, 1), "StartDocument".to_string()),
            (pos(0, 1), "StartElement(a)".to_string()),
            (pos(0, 5), "StartElement(b)".to_string()),
            (pos(0, 5), "EndElement(b)".to_string()),
            (pos(0, 9), "EndElement(a)".to_string()),
            (pos(0, 13), "EndDocument".to_string()),
        ]
    );
}

#[test]
fn unescaped_cdata_end_in_text() {
    assert_eq!(
        texts("<hello>]]></hello>", default_config()),
        vec!["StartDocument(Version10, UTF-8)".to_string(), "StartElement(hello)".to_string(), "1:8 ]]> in text".to_string()]
    );
}

fn texts(doc: &str, config: ParserConfig2) -> Vec<String> {
    all_events(doc, config)
        .iter()
        .map(|(_, e)| match e {
            Ok(XmlEvent::StartDocument { version, encoding, .. }) => {
                format!("StartDocument({:?}, {})", version, string(encoding))
            },
            Ok(XmlEvent::StartElement { name, attributes, .. }) => {
                let mut s = format!("StartElement({}", string(&name.to_repr()));
                for a in attributes {
                    s.push_str(&format!(" {}={:?}", string(&a.name.to_repr()), string(&a.value)));
                }
                s.push(')');
                s
            },
            Ok(XmlEvent::EndElement { name }) => format!("EndElement({})", string(&name.to_repr())),
            Ok(XmlEvent::EndDocument) => "EndDocument".to_string(),
            Ok(XmlEvent::Characters(s)) => format!("Characters({:?})", string(s)),
            Ok(XmlEvent::CData(s)) => format!("CData({:?})", string(s)),
            Ok(XmlEvent::Comment(s)) => format!("Comment({:?})", string(s)),
            Ok(XmlEvent::Whitespace(s)) => format!("Whitespace({:?})", string(s)),
            Ok(XmlEvent::ProcessingInstruction { name, data }) => format!(
                "ProcessingInstruction({}, {:?})",
                string(name),
                data.as_ref().map(string)
            ),
            Err(e) => string(&e.describe()),
        })
        .collect()
}

#[test]
fn unescaped_pi_and_empty_tag_ends_are_text() {
    assert_eq!(
        texts("<hello>?></hello>", default_config()),
        vec!["StartDocument(Version10, UTF-8)".to_string(), "StartElement(hello)".to_string(), "Characters(\"?>\")".to_string(), "EndElement(hello)".to_string(), "EndDocument".to_string()]
    );
    assert_eq!(
        texts("<hello>/></hello>", default_config()),
        vec!["StartDocument(Version10, UTF-8)".to_string(), "StartElement(hello)".to_string(), "Characters(\"/>\")".to_string(), "EndElement(hello)".to_string(), "EndDocument".to_string()]
    );
}

#[test]
fn duplicate_attributes() {
    assert_eq!(
        texts("<hello><some-tag a='10' a=\"20\"></hello>", default_config()),
        vec!["StartDocument(Version10, UTF-8)".to_string(), "StartElement(hello)".to_string(), "1:30 Attribute 'a' is redefined".to_string()]
    );
}

#[test]
fn cdata_ending_with_right_bracket() {
    let t = texts("<hello><![CDATA[Foo [Bar]]]></hello>", default_config());
    assert_eq!(t[2], "CData(\"Foo [Bar]\")");
    assert_eq!(t.len(), 5);
}

#[test]
fn double_dashes_in_text() {
    for (doc, s) in [
        ("<hello>-- </hello>", "Characters(\"-- \")"),
        ("<hello>--</hello>", "Characters(\"--\")"),
        ("<hello>--></hello>", "Characters(\"-->\")"),
        ("<hello><![CDATA[--]]></hello>", "CData(\"--\")"),
    ] {
        let t = texts(doc, default_config());
        assert_eq!(t[2], s);
        assert_eq!(t[3], "EndElement(hello)");
        assert_eq!(t[4], "EndDocument");
    }
}

#[test]
fn attributes_have_no_default_namespace() {
    let t = texts("<hello xmlns=\"urn:foo\" x=\"y\"/>", default_config());
    let evs = all_events("<hello xmlns=\"urn:foo\" x=\"y\"/>", default_config());
    match &evs[1].1 {
        Ok(XmlEvent::StartElement { name, attributes, .. }) => {
            assert_eq!(name.namespace, Some(chars("urn:foo")));
            assert_eq!(attributes.len(), 1);
            assert_eq!(attributes[0].name.namespace, None);
        },
        e => panic!("Unexpected event: {:?}", e),
    }
    assert_eq!(t[3], "EndDocument");
}

#[test]
fn surrogate_character_references() {
    let failing = vec!["StartDocument(Version10, UTF-8)".to_string(), "StartElement(doc)".to_string(), "1:13 Invalid character U+D83D".to_string()];
    assert_eq!(texts("<doc>&#55357;&#56628;</doc>", default_config()), failing);
    assert_eq!(texts("<doc>&#xd83d;&#xdd34;</doc>", default_config()), failing);
    let replaced = vec![
        "StartDocument(Version10, UTF-8)".to_string(),
        "StartElement(doc)".to_string(),
        format!("Characters({:?})", "\u{fffd}\u{fffd}"),
        "EndElement(doc)".to_string(),
        "EndDocument".to_string(),
    ];
    for doc in ["<doc>&#55357;&#56628;</doc>", "<doc>&#xd83d;&#xdd34;</doc>"] {
        let cfg = ParserConfig2::from(ParserConfig::new().replace_unknown_entity_references(true));
        assert_eq!(texts(doc, cfg), replaced);
    }
}

#[test]
fn unknown_entity() {
    assert_eq!(
        texts("<hello>&\u{24dbc};</hello>", default_config()),
        vec![
            "StartDocument(Version10, UTF-8)".to_string(),
            "StartElement(hello)".to_string(),
            "1:10 Unexpected entity: \u{24dbc}".to_string(),
        ]
    );
}

#[test]
fn predefined_entities_and_char_references() {
    let t = texts("<a>&lt;&gt;&amp;&apos;&quot;&#65;&#x42;</a>", default_config());
    assert_eq!(t[2], "Characters(\"<>&'\\\"AB\")");
}

#[test]
fn unbalanced_closing_tag() {
    let t = texts("<a><b></a>", default_config());
    assert_eq!(t.last().unwrap(), "1:10 Unexpected closing tag: a, expected b");
}

#[test]
fn unbound_prefix() {
    let t = texts("<p:a/>", default_config());
    assert_eq!(t.last().unwrap(), "1:5 Element p:a prefix is unbound");
}

#[test]
fn namespaces_resolve_and_nest() {
    let doc = "<r xmlns:p=\"urn:p\"><p:a p:x=\"1\"><p:b/></p:a></r>";
    let evs = all_events(doc, default_config());
    let mut depth = 0i32;
    for (_, e) in &evs {
        match e {
            Ok(XmlEvent::StartElement { name, attributes, .. }) => {
                depth += 1;
                if name.prefix.is_some() {
                    assert_eq!(name.namespace, Some(chars("urn:p")));
                }
                for a in attributes {
                    assert_eq!(a.name.namespace, Some(chars("urn:p")));
                }
            },
            Ok(XmlEvent::EndElement { .. }) => depth -= 1,
            Ok(_) => {},
            Err(e) => panic!("unexpected error {}", string(&e.describe())),
        }
        assert!(depth >= 0);
    }
    assert_eq!(depth, 0);
    assert!(matches!(evs.last().unwrap().1, Ok(XmlEvent::EndDocument)));
}

#[test]
fn the_end_result_repeats() {
    let mut r = CharReader::new(chars("<a/>"));
    let mut p = new_parser();
    loop {
        if let Ok(XmlEvent::EndDocument) = p.next(&mut r) {
            break;
        }
    }
    for _ in 0..3 {
        assert!(matches!(p.next(&mut r), Ok(XmlEvent::EndDocument)));
    }
    let mut r = CharReader::new(chars("<a></b>"));
    let mut p = new_parser();
    let first = loop {
        let e = p.next(&mut r);
        if e.is_err() {
            break e;
        }
    };
    for _ in 0..3 {
        assert_eq!(p.next(&mut r), first);
    }
}

#[test]
fn end_of_stream_inside_root() {
    let t = texts("<a>", default_config());
    assert_eq!(t.last().unwrap(), "1:4 Unexpected end of stream: still inside the root element");
    let cfg = ParserConfig2::from(ParserConfig::new().ignore_end_of_stream(true));
    let mut p = PullParser::new(cfg);
    assert!(p.is_ignoring_end_of_stream());
    let mut r = CharReader::new(chars("<a>"));
    assert!(matches!(p.next(&mut r), Ok(XmlEvent::StartDocument { .. })));
    assert!(matches!(p.next(&mut r), Ok(XmlEvent::StartElement { .. })));
    assert!(p.next(&mut r).is_err());
    r.feed(&chars("</a>"));
    assert!(matches!(p.next(&mut r), Ok(XmlEvent::EndElement { .. })));
    assert!(matches!(p.next(&mut r), Ok(XmlEvent::EndDocument)));
    assert!(!new_parser().is_ignoring_end_of_stream());
}

#[test]
fn declaration_is_read() {
    let t = texts("<?xml version=\"1.1\" encoding=\"utf-8\" standalone=\"yes\"?><a/>", default_config());
    assert_eq!(t[0], "StartDocument(Version11, utf-8)");
    let evs = all_events("<?xml version=\"1.0\" standalone=\"no\"?><a/>", default_config());
    match &evs[0].1 {
        Ok(XmlEvent::StartDocument { standalone, .. }) => assert_eq!(*standalone, Some(false)),
        e => panic!("Unexpected event: {:?}", e),
    }
    let t = texts("<?xml version=\"2.0\"?><a/>", default_config());
    assert_eq!(t.last().unwrap(), "1:19 Unexpected XML version value: 2.0");
}

#[test]
fn processing_instruction_and_comment() {
    let cfg = ParserConfig2::from(ParserConfig::new().ignore_comments(false));
    let t = texts("<?pi some data?><!--c--><a/>", cfg);
    assert_eq!(t[0], "ProcessingInstruction(pi, Some(\"some data\"))");
    assert_eq!(t[1], "StartDocument(Version10, UTF-8)");
    assert_eq!(t[2], "Comment(\"c\")");
}

#[test]
fn doctype_entities_are_expanded() {
    let doc = "<!DOCTYPE r [<!ENTITY e \"v&#65;\">]><r>&e;</r>";
    let t = texts(doc, default_config());
    assert_eq!(t[2], "Characters(\"vA\")");
    let cfg = ParserConfig2::from(ParserConfig::new().add_entity(chars("x"), chars("y")));
    let t = texts("<r>&x;</r>", cfg);
    assert_eq!(t[2], "Characters(\"y\")");
}

#[test]
fn multiple_roots() {
    let t = texts("<a/><b/>", default_config());
    assert_eq!(t[3], "StartElement(b)");
    let cfg = ParserConfig2::new().allow_multiple_root_elements(false);
    let t = texts("<a/><b/>", cfg);
    assert_eq!(t.last().unwrap(), "1:5 Unexpected token: <");
}

#[test]
fn end_of_text_errors() {
    let t = texts("", default_config());
    assert_eq!(t, vec!["1:1 Unexpected end of stream: no root element found".to_string()]);
    let t = texts("<!-- only a comment -->", default_config());
    assert_eq!(t.last().unwrap(), "1:24 Unexpected end of stream: no root element found");
    let t = texts("<a", default_config());
    assert_eq!(t.last().unwrap(), "1:3 Unexpected end of stream");
    let t = texts("<a/>  ", default_config());
    assert_eq!(t.last().unwrap(), "EndDocument");
}

#[test]
fn document_starts_once_before_elements() {
    for doc in ["<a><b/></a>", "<?xml version=\"1.0\"?><a/>", "<!--c--><a/>", "<?pi?><a/>"] {
        let evs = all_events(doc, default_config());
        let starts: Vec<usize> = evs
            .iter()
            .enumerate()
            .filter(|(_, (_, e))| matches!(e, Ok(XmlEvent::StartDocument { .. })))
            .map(|(i, _)| i)
            .collect();
        assert_eq!(starts.len(), 1, "{}", doc);
        let first_element = evs
            .iter()
            .position(|(_, e)| matches!(e, Ok(XmlEvent::StartElement { .. })))
            .unwrap();
        assert!(starts[0] < first_element, "{}", doc);
    }
}

#[test]
fn empty_element_ends_at_once() {
    let t = texts("<a><b x=\"1\"/>text</a>", default_config());
    assert_eq!(
        t,
        vec![
            "StartDocument(Version10, UTF-8)".to_string(),
            "StartElement(a)".to_string(),
            "StartElement(b x=\"1\")".to_string(),
            "EndElement(b)".to_string(),
            "Characters(\"text\")".to_string(),
            "EndElement(a)".to_string(),
            "EndDocument".to_string(),
        ]
    );
}

#[test]
fn closing_tag_with_space_before_end() {
    assert_eq!(
        texts("<a></a >", default_config()),
        vec![
            "StartDocument(Version10, UTF-8)".to_string(),
            "StartElement(a)".to_string(),
            "EndElement(a)".to_string(),
            "EndDocument".to_string(),
        ]
    );
}

#[test]
fn other_errors_stay_final_when_end_of_stream_is_ignored() {
    let cfg = ParserConfig2::from(ParserConfig::new().ignore_end_of_stream(true));
    let mut p = PullParser::new(cfg);
    let mut r = CharReader::new(chars("<a><b></a>"));
    let first = loop {
        let e = p.next(&mut r);
        if e.is_err() {
            break e;
        }
    };
    r.feed(&chars("</b></a>"));
    for _ in 0..3 {
        assert_eq!(p.next(&mut r), first);
    }
}
