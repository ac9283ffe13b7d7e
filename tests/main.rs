use parse_mediawiki_dump_reboot::laws::parse_events;
use parse_mediawiki_dump_reboot::schema::Namespace;
use parse_mediawiki_dump_reboot::{Error, Outcome, Page, XmlEvent};
use quick_xml::events::Event;
use quick_xml::Reader;

const DUMP: &str = "<mediawiki xmlns=\"http://www.mediawiki.org/xml/export-0.10/\">\
<page><ns>0</ns><title>alpha</title><revision><format>beta</format>\
<model>gamma</model><text>delta</text></revision></page>\
<page><ns>4</ns><title>epsilon</title><revision><text>zeta</text></revision></page>\
</mediawiki>";

const NS: &str = "http://www.mediawiki.org/xml/export-0.10/";

/// Reads a document with the XML reader into events with their offsets.
fn read_events(xml: &str) -> Vec<(XmlEvent, usize)> {
    let mut reader = Reader::from_reader(std::io::BufReader::new(std::io::Cursor::new(xml)));
    reader.expand_empty_elements(true);
    let mut buffer = Vec::new();
    let mut namespace_buffer = Vec::new();
    let mut events = Vec::new();
    loop {
        buffer.clear();
        let (namespace, event) = reader
            .read_namespaced_event(&mut buffer, &mut namespace_buffer)
            .unwrap();
        let namespace = namespace.map(|n| String::from_utf8_lossy(n).into_owned());
        let event = match event {
            Event::Start(start) => XmlEvent::Start {
                namespace,
                local_name: String::from_utf8_lossy(start.local_name()).into_owned(),
            },
            Event::End(_) => XmlEvent::End,
            Event::Text(text) => XmlEvent::Text(text.unescape_and_decode(&reader).unwrap()),
            Event::Eof => XmlEvent::Eof,
            _ => XmlEvent::Other,
        };
        let end = matches!(event, XmlEvent::Eof);
        events.push((event, reader.buffer_position()));
        if end {
            return events;
        }
    }
}

fn start(name: &str) -> XmlEvent {
    XmlEvent::Start { namespace: Some(NS.to_string()), local_name: name.to_string() }
}

fn text(t: &str) -> XmlEvent {
    XmlEvent::Text(t.to_string())
}

fn leaf(name: &str, t: &str) -> Vec<XmlEvent> {
    vec![start(name), text(t), XmlEvent::End]
}

/// Gives each event its index as its offset.
fn numbered(events: Vec<XmlEvent>) -> Vec<(XmlEvent, usize)> {
    events.into_iter().enumerate().map(|(i, e)| (e, i)).collect()
}

/// The events of a dump around the events of its pages.
fn dump(pages: Vec<Vec<XmlEvent>>) -> Vec<XmlEvent> {
    let mut events = vec![start("mediawiki")];
    for page in pages {
        events.extend(page);
    }
    events.push(XmlEvent::End);
    events.push(XmlEvent::Eof);
    events
}

fn page(parts: Vec<Vec<XmlEvent>>) -> Vec<XmlEvent> {
    let mut events = vec![start("page")];
    for part in parts {
        events.extend(part);
    }
    events.push(XmlEvent::End);
    events
}

fn revision(parts: Vec<Vec<XmlEvent>>) -> Vec<XmlEvent> {
    let mut events = vec![start("revision")];
    for part in parts {
        events.extend(part);
    }
    events.push(XmlEvent::End);
    events
}

fn pages(outcomes: &[Outcome]) -> Vec<&Page> {
    outcomes
        .iter()
        .filter_map(|o| match o {
            Outcome::Emit(p) => Some(p),
            _ => None,
        })
        .collect()
}

#[test]
fn main() {
    let outcomes = parse_events(&read_events(DUMP));
    let mut items = outcomes.iter();
    assert!(match items.next() {
        Some(Outcome::Emit(Page {
            format: Some(format),
            model: Some(model),
            namespace: Namespace::Main,
            text,
            title,
        })) => format == "beta" && model == "gamma" && text == "delta" && title == "alpha",
        _ => false,
    });
    assert!(match items.next() {
        Some(Outcome::Emit(Page {
            format: None,
            model: None,
            namespace: Namespace::Wikipedia,
            text,
            title,
        })) => text == "zeta" && title == "epsilon",
        _ => false,
    });
    assert!(matches!(items.next(), Some(Outcome::Finished)));
}

#[test]
fn built_events_give_the_two_pages_then_the_end() {
    let events = dump(vec![
        page(vec![
            leaf("ns", "0"),
            leaf("title", "alpha"),
            revision(vec![leaf("format", "beta"), leaf("model", "gamma"), leaf("text", "delta")]),
        ]),
        page(vec![leaf("ns", "4"), leaf("title", "epsilon"), revision(vec![leaf("text", "zeta")])]),
    ]);
    let outcomes = parse_events(&numbered(events));
    assert_eq!(outcomes.len(), 4);
    let got = pages(&outcomes);
    assert_eq!(got.len(), 2);
    assert_eq!(got[0].title, "alpha");
    assert_eq!(got[0].namespace, Namespace::Main);
    assert_eq!(got[0].format.as_deref(), Some("beta"));
    assert_eq!(got[0].model.as_deref(), Some("gamma"));
    assert_eq!(got[0].text, "delta");
    assert_eq!(got[1].title, "epsilon");
    assert_eq!(got[1].namespace, Namespace::Wikipedia);
    assert_eq!(got[1].format, None);
    assert_eq!(got[1].model, None);
    assert_eq!(got[1].text, "zeta");
    assert!(matches!(outcomes[2], Outcome::Finished));
    // the one event after the root's end tag gives the end once more
    assert!(matches!(outcomes[3], Outcome::Finished));
}

#[test]
fn many_pages_come_out_in_order() {
    let titles: Vec<String> = (0..20).map(|i| format!("page {}", i)).collect();
    let events = dump(
        titles
            .iter()
            .map(|t| page(vec![leaf("ns", "2"), leaf("title", t), revision(vec![leaf("text", "x")])]))
            .collect(),
    );
    let outcomes = parse_events(&numbered(events));
    let got = pages(&outcomes);
    assert_eq!(got.len(), 20);
    for (p, t) in got.iter().zip(titles.iter()) {
        assert_eq!(&p.title, t);
        assert_eq!(p.namespace, Namespace::User);
    }
    assert!(matches!(outcomes[20], Outcome::Finished));
}

#[test]
fn empty_dump_gives_only_the_end() {
    let outcomes = parse_events(&read_events(&format!(r#"<mediawiki xmlns="{}"></mediawiki>"#, NS)));
    assert_eq!(outcomes.len(), 2);
    assert!(matches!(outcomes[0], Outcome::Finished));
}

#[test]
fn absent_format_and_model_differ_from_empty_ones() {
    let absent = format!(
        r#"<mediawiki xmlns="{}"><page><ns>0</ns><title>a</title><revision><text>t</text></revision></page></mediawiki>"#,
        NS
    );
    let empty = format!(
        r#"<mediawiki xmlns="{}"><page><ns>0</ns><title>a</title><revision><format></format><model/><text>t</text></revision></page></mediawiki>"#,
        NS
    );
    let outcomes = parse_events(&read_events(&absent));
    let got = pages(&outcomes);
    assert_eq!(got[0].format, None);
    assert_eq!(got[0].model, None);
    let outcomes = parse_events(&read_events(&empty));
    let got = pages(&outcomes);
    assert_eq!(got[0].format.as_deref(), Some(""));
    assert_eq!(got[0].model.as_deref(), Some(""));
}

#[test]
fn empty_text_element_gives_empty_text() {
    let xml = format!(
        r#"<mediawiki xmlns="{}"><page><ns>0</ns><title>a</title><revision><text></text></revision></page></mediawiki>"#,
        NS
    );
    let outcomes = parse_events(&read_events(&xml));
    let got = pages(&outcomes);
    assert_eq!(got.len(), 1);
    assert_eq!(got[0].text, "");
}

#[test]
fn second_revision_is_not_supported() {
    let events = dump(vec![page(vec![
        leaf("ns", "0"),
        leaf("title", "a"),
        revision(vec![leaf("text", "one")]),
        revision(vec![leaf("text", "two")]),
    ])]);
    let position = 1 + 1 + 3 + 3 + 5;
    let outcomes = parse_events(&numbered(events));
    assert!(pages(&outcomes).is_empty());
    assert!(matches!(outcomes[0], Outcome::Failed(Error::NotSupported(p)) if p == position));
    assert!(outcomes[1..].iter().all(|o| matches!(o, Outcome::Finished)));
}

#[test]
fn missing_title_is_a_format_error_at_the_page_end() {
    let events = dump(vec![page(vec![leaf("ns", "0"), revision(vec![leaf("text", "t")])])]);
    let position = 1 + 1 + 3 + 5;
    let outcomes = parse_events(&numbered(events));
    assert!(pages(&outcomes).is_empty());
    assert!(matches!(outcomes[0], Outcome::Failed(Error::Format(p)) if p == position));
}

#[test]
fn missing_ns_and_missing_text_are_format_errors() {
    let events = dump(vec![page(vec![leaf("title", "a"), revision(vec![leaf("text", "t")])])]);
    let outcomes = parse_events(&numbered(events));
    assert!(matches!(outcomes[0], Outcome::Failed(Error::Format(10))));
    let events = dump(vec![page(vec![leaf("ns", "0"), leaf("title", "a"), revision(vec![])])]);
    let outcomes = parse_events(&numbered(events));
    assert!(matches!(outcomes[0], Outcome::Failed(Error::Format(9))));
}

#[test]
fn unknown_elements_are_skipped_at_every_level() {
    let xml = format!(
        "<mediawiki xmlns=\"{}\"><siteinfo><sitename>w</sitename>\
         <namespaces><namespace key=\"0\"/></namespaces></siteinfo>\
         <page><id>7</id><ns>0</ns><redirect title=\"b\"/><title>a</title>\
         <revision><id>1</id><contributor><username>u</username><id>2</id>\
         <x><y><z/></y></x></contributor>\
         <format>f</format><minor/><model>m</model><sha1>s</sha1>\
         <text bytes=\"1\">t</text></revision>\
         <other xmlns=\"urn:x\"><title>not this</title></other></page></mediawiki>",
        NS
    );
    let outcomes = parse_events(&read_events(&xml));
    let got = pages(&outcomes);
    assert_eq!(got.len(), 1);
    assert_eq!(got[0].title, "a");
    assert_eq!(got[0].format.as_deref(), Some("f"));
    assert_eq!(got[0].model.as_deref(), Some("m"));
    assert_eq!(got[0].text, "t");
    assert!(matches!(outcomes[1], Outcome::Finished));
}

#[test]
fn element_of_another_namespace_is_not_read() {
    let events = dump(vec![page(vec![
        leaf("ns", "0"),
        vec![
            XmlEvent::Start { namespace: None, local_name: "title".to_string() },
            text("no"),
            XmlEvent::End,
        ],
        leaf("title", "yes"),
        revision(vec![leaf("text", "t")]),
    ])]);
    let outcomes = parse_events(&numbered(events));
    assert_eq!(pages(&outcomes)[0].title, "yes");
}

#[test]
fn wrong_root_is_a_format_error() {
    let outcomes = parse_events(&read_events("<mediawiki><page/></mediawiki>"));
    assert!(matches!(outcomes[0], Outcome::Failed(Error::Format(_))));
    let events = vec![(XmlEvent::Other, 0), (start("page"), 5)];
    let outcomes = parse_events(&events);
    assert!(matches!(outcomes[0], Outcome::Failed(Error::Format(5))));
}

#[test]
fn input_without_root_is_a_format_error() {
    let outcomes = parse_events(&read_events("<?xml version=\"1.0\"?>"));
    assert!(matches!(outcomes[0], Outcome::Failed(Error::Format(_))));
}

#[test]
fn end_of_input_inside_the_root_is_a_format_error() {
    let events = vec![(start("mediawiki"), 0), (start("page"), 1), (start("x"), 2), (XmlEvent::Eof, 3)];
    let outcomes = parse_events(&events);
    assert!(matches!(outcomes[0], Outcome::Failed(Error::Format(3))));
}

#[test]
fn duplicate_fields_are_format_errors() {
    for (name, part) in [
        ("title", leaf("title", "b")),
        ("ns", leaf("ns", "1")),
    ] {
        let events = dump(vec![page(vec![leaf("ns", "0"), leaf("title", "a"), part])]);
        let outcomes = parse_events(&numbered(events));
        assert!(matches!(outcomes[0], Outcome::Failed(Error::Format(8))), "{}", name);
    }
    for name in ["format", "model", "text"] {
        let events = dump(vec![page(vec![
            leaf("ns", "0"),
            leaf("title", "a"),
            revision(vec![leaf(name, "x"), leaf(name, "y")]),
        ])]);
        let outcomes = parse_events(&numbered(events));
        assert!(matches!(outcomes[0], Outcome::Failed(Error::Format(12))), "{}", name);
    }
}

#[test]
fn ns_must_be_a_known_decimal_code() {
    for (ns, ok) in [("0", true), ("+14", true), ("-2", true), ("2303", true), ("x", false), ("", false), ("1.5", false), ("99999999999", false)] {
        let events = dump(vec![page(vec![leaf("ns", ns), leaf("title", "a"), revision(vec![leaf("text", "t")])])]);
        let outcomes = parse_events(&numbered(events));
        if ok {
            assert!(matches!(outcomes[0], Outcome::Emit(_)), "{}", ns);
        } else {
            assert!(matches!(outcomes[0], Outcome::Failed(Error::Format(4))), "{}", ns);
        }
    }
    let events = dump(vec![page(vec![leaf("ns", "3000"), leaf("title", "a")])]);
    let outcomes = parse_events(&numbered(events));
    assert!(matches!(outcomes[0], Outcome::Failed(Error::NotSupported(4))));
    let events = dump(vec![page(vec![vec![start("ns"), XmlEvent::End], leaf("title", "a")])]);
    let outcomes = parse_events(&numbered(events));
    assert!(matches!(outcomes[0], Outcome::Failed(Error::Format(3))));
}

#[test]
fn nested_content_in_a_field_is_a_format_error() {
    let xml = format!(
        r#"<mediawiki xmlns="{}"><page><ns>0</ns><title>a<b/></title></page></mediawiki>"#,
        NS
    );
    let outcomes = parse_events(&read_events(&xml));
    assert!(matches!(outcomes[0], Outcome::Failed(Error::Format(_))));
    let events = dump(vec![page(vec![vec![start("title"), start("b")]])]);
    let outcomes = parse_events(&numbered(events));
    assert!(matches!(outcomes[0], Outcome::Failed(Error::Format(3))));
}

#[test]
fn escapes_in_text_are_resolved() {
    let xml = format!(
        r#"<mediawiki xmlns="{}"><page><ns>0</ns><title>a &amp; b</title><revision><text>&lt;x&gt;</text></revision></page></mediawiki>"#,
        NS
    );
    let outcomes = parse_events(&read_events(&xml));
    let got = pages(&outcomes);
    assert_eq!(got[0].title, "a & b");
    assert_eq!(got[0].text, "<x>");
}

#[test]
fn nothing_follows_an_error() {
    let mut parser = parse_mediawiki_dump_reboot::DumpParser::new();
    assert!(matches!(parser.step(start("x"), 0), Outcome::Failed(Error::Format(0))));
    assert!(matches!(parser.step(start("mediawiki"), 1), Outcome::Finished));
}
