use vmix_xml::engine::attr_value;
use vmix_xml::schema::{classify, Role};
use vmix_xml::convert::{convert_events, parse};
use vmix_xml::event::{Tag, XmlEvent};
use vmix_xml::tree::Node;

fn field<'a>(n: &'a Node, key: &str) -> Option<&'a Node> {
    match n {
        Node::Object(entries) => entries.iter().find(|(k, _)| k == key).map(|(_, v)| v),
        _ => None,
    }
}

fn keys(n: &Node) -> Vec<String> {
    match n {
        Node::Object(entries) => entries.iter().map(|(k, _)| k.clone()).collect(),
        _ => Vec::new(),
    }
}

fn items(n: &Node) -> &Vec<Node> {
    match n {
        Node::List(v) => v,
        _ => panic!("not a list"),
    }
}

fn text(n: &Node) -> &str {
    match n {
        Node::Text(s) => s,
        _ => panic!("not text"),
    }
}

/// The single text of a one-element sequence.
fn scalar(n: &Node) -> &str {
    let v = items(n);
    assert_eq!(v.len(), 1);
    text(&v[0])
}

fn status(n: &Node) -> &Node {
    assert_eq!(keys(n), vec!["vmix".to_string()]);
    field(n, "vmix").unwrap()
}

/// The attribute group of a record `{ "$": { .. } }`, as pairs.
fn attrs(record: &Node) -> Vec<(String, String)> {
    assert_eq!(keys(record), vec!["$".to_string()]);
    match field(record, "$").unwrap() {
        Node::Object(entries) => entries.iter().map(|(k, v)| (k.clone(), text(v).to_string())).collect(),
        _ => panic!("not an attribute group"),
    }
}

fn pairs(list: &[(&str, &str)]) -> Vec<(String, String)> {
    list.iter().map(|(k, v)| (k.to_string(), v.to_string())).collect()
}

fn is_empty_document(n: &Node) -> bool {
    keys(status(n)).is_empty()
}

fn records<'a>(vmix: &'a Node, outer: &str, inner: &str) -> &'a Vec<Node> {
    let wrapper = items(field(vmix, outer).unwrap());
    assert_eq!(wrapper.len(), 1);
    assert_eq!(keys(&wrapper[0]), vec![inner.to_string()]);
    items(field(&wrapper[0], inner).unwrap())
}

#[test]
fn version_and_one_input() {
    let doc = parse(
        "<vmix><version>24</version><inputs><input key=\"a1\" number=\"1\" title=\"Cam1\" type=\"Video\" state=\"Running\"/></inputs></vmix>",
    );
    let vmix = status(&doc);
    assert_eq!(scalar(field(vmix, "version").unwrap()), "24");
    let inputs = records(vmix, "inputs", "input");
    assert_eq!(inputs.len(), 1);
    assert_eq!(
        attrs(&inputs[0]),
        pairs(&[("key", "a1"), ("number", "1"), ("title", "Cam1"), ("type", "Video"), ("state", "Running")])
    );
}

#[test]
fn audio_master_and_bus_a() {
    let doc = parse(
        "<vmix><audio><master volume=\"80\" muted=\"false\"/><busA volume=\"60\" muted=\"true\"/></audio></vmix>",
    );
    let vmix = status(&doc);
    let audio = items(field(vmix, "audio").unwrap());
    assert_eq!(audio.len(), 1);
    assert_eq!(keys(&audio[0]), vec!["master".to_string(), "busA".to_string()]);
    assert_eq!(attrs(field(&audio[0], "master").unwrap()), pairs(&[("volume", "80"), ("muted", "false")]));
    assert_eq!(attrs(field(&audio[0], "busA").unwrap()), pairs(&[("volume", "60"), ("muted", "true")]));
}

#[test]
fn truncated_input_gives_empty_document() {
    assert!(is_empty_document(&parse("<vmix><input")));
}

#[test]
fn empty_input_gives_empty_document() {
    assert!(is_empty_document(&parse("")));
    assert!(is_empty_document(&parse("   \n ")));
}

#[test]
fn mismatched_end_tag_gives_empty_document() {
    assert!(is_empty_document(&parse("<vmix><version>1</edition></vmix>")));
}

#[test]
fn bus_h_is_never_emitted() {
    let doc = parse("<vmix><audio><busH volume=\"1\" muted=\"False\"/><busG volume=\"2\" muted=\"True\"/></audio></vmix>");
    let audio = items(field(status(&doc), "audio").unwrap());
    assert_eq!(keys(&audio[0]), vec!["busG".to_string()]);
}

#[test]
fn only_bus_h_gives_no_audio_group() {
    let doc = parse("<vmix><audio><busH volume=\"1\"/></audio></vmix>");
    assert!(field(status(&doc), "audio").is_none());
}

#[test]
fn flags_are_always_present() {
    let doc = parse("<vmix><streaming>True</streaming></vmix>");
    let vmix = status(&doc);
    assert_eq!(scalar(field(vmix, "streaming").unwrap()), "True");
    for k in ["fadeToBlack", "external", "playList", "multiCorder", "fullscreen"] {
        assert_eq!(scalar(field(vmix, k).unwrap()), "False");
    }
    for k in ["version", "edition", "preset", "active", "preview"] {
        assert!(field(vmix, k).is_none());
    }
}

#[test]
fn empty_scalar_is_omitted() {
    let doc = parse("<vmix><version></version><edition>4K</edition><active>3</active></vmix>");
    let vmix = status(&doc);
    assert!(field(vmix, "version").is_none());
    assert_eq!(scalar(field(vmix, "edition").unwrap()), "4K");
    assert_eq!(scalar(field(vmix, "active").unwrap()), "3");
}

#[test]
fn scalars_follow_table_order() {
    let doc = parse("<vmix><preview>2</preview><version>27</version></vmix>");
    let k = keys(status(&doc));
    assert_eq!(&k[0..2], &["version".to_string(), "preview".to_string()]);
    assert_eq!(k.len(), 8);
}

#[test]
fn inputs_keep_document_order_and_attributes() {
    let doc = parse("<vmix><inputs><input key=\"x\" number=\"2\"><overlay index=\"0\" key=\"k\"/></input><input number=\"1\"/><input key=\"x\" number=\"2\"/></inputs></vmix>");
    let inputs = records(status(&doc), "inputs", "input");
    assert_eq!(inputs.len(), 3);
    assert_eq!(attrs(&inputs[0]), pairs(&[("key", "x"), ("number", "2")]));
    assert_eq!(attrs(&inputs[1]), pairs(&[("number", "1")]));
    assert_eq!(attrs(&inputs[2]), pairs(&[("key", "x"), ("number", "2")]));
}

#[test]
fn overlays_keep_only_number() {
    let doc = parse("<vmix><overlays><overlay number=\"1\" preview=\"False\">5</overlay><overlay number=\"2\"/></overlays></vmix>");
    let overlays = records(status(&doc), "overlays", "overlay");
    assert_eq!(overlays.len(), 2);
    assert_eq!(attrs(&overlays[0]), pairs(&[("number", "1")]));
    let doc = parse("<vmix><overlays><overlay preview=\"True\"/></overlays></vmix>");
    let overlays = records(status(&doc), "overlays", "overlay");
    assert!(keys(&overlays[0]).is_empty());
}

#[test]
fn transitions_keep_all_attributes() {
    let doc = parse("<vmix><transitions><transition number=\"1\" effect=\"Fade\" duration=\"500\"/></transitions></vmix>");
    let t = records(status(&doc), "transitions", "transition");
    assert_eq!(attrs(&t[0]), pairs(&[("number", "1"), ("effect", "Fade"), ("duration", "500")]));
}

#[test]
fn recording_with_duration() {
    let doc = parse("<vmix><recording duration=\"42\">True</recording></vmix>");
    let rec = items(field(status(&doc), "recording").unwrap());
    assert_eq!(rec.len(), 1);
    assert_eq!(attrs(&rec[0]), pairs(&[("duration", "42")]));
}

#[test]
fn recording_without_duration() {
    let doc = parse("<vmix><recording>True</recording></vmix>");
    let rec = items(field(status(&doc), "recording").unwrap());
    assert!(attrs(&rec[0]).is_empty());
}

#[test]
fn recording_off_is_omitted() {
    let doc = parse("<vmix><recording>False</recording></vmix>");
    assert!(field(status(&doc), "recording").is_none());
}

#[test]
fn unknown_elements_are_ignored() {
    let doc = parse("<vmix><dynamic><value1>x</value1></dynamic><version>9</version></vmix>");
    let vmix = status(&doc);
    assert_eq!(scalar(field(vmix, "version").unwrap()), "9");
    assert!(field(vmix, "dynamic").is_none());
    assert!(field(vmix, "value1").is_none());
}

#[test]
fn text_goes_to_innermost_element() {
    let doc = parse("<vmix><version>1<x>2</x></version></vmix>");
    assert_eq!(scalar(field(status(&doc), "version").unwrap()), "1");
}

#[test]
fn entities_in_text_are_unescaped() {
    let doc = parse("<vmix><preset>a &amp; b</preset></vmix>");
    assert_eq!(scalar(field(status(&doc), "preset").unwrap()), "a & b");
}

#[test]
fn same_text_gives_same_tree() {
    let xml = "<vmix><version>24</version><inputs><input key=\"a\"/></inputs><audio><master volume=\"1\"/></audio></vmix>";
    assert!(parse(xml) == parse(xml));
}

#[test]
fn events_without_start_give_empty_document() {
    let doc = convert_events(&vec![XmlEvent::Text("x".to_string()), XmlEvent::End]);
    assert!(is_empty_document(&doc));
}

#[test]
fn end_without_open_element_is_tolerated() {
    let events = vec![
        XmlEvent::End,
        XmlEvent::Start(Tag { name: "vmix".to_string(), attrs: vec![] }),
        XmlEvent::Start(Tag { name: "active".to_string(), attrs: vec![] }),
        XmlEvent::End,
        XmlEvent::Text("7".to_string()),
        XmlEvent::Start(Tag { name: "preview".to_string(), attrs: vec![] }),
        XmlEvent::Text("8".to_string()),
    ];
    let doc = convert_events(&events);
    let vmix = status(&doc);
    assert!(field(vmix, "active").is_none());
    assert_eq!(scalar(field(vmix, "preview").unwrap()), "8");
}

#[test]
fn dispatch_table() {
    assert!(matches!(classify(&"input".to_string()), Role::Input));
    assert!(matches!(classify(&"overlay".to_string()), Role::Overlay));
    assert!(matches!(classify(&"transition".to_string()), Role::Transition));
    assert!(matches!(classify(&"recording".to_string()), Role::Recording));
    assert!(matches!(classify(&"version".to_string()), Role::Scalar(0)));
    assert!(matches!(classify(&"fullscreen".to_string()), Role::Scalar(10)));
    assert!(matches!(classify(&"master".to_string()), Role::Bus(0)));
    assert!(matches!(classify(&"busG".to_string()), Role::Bus(7)));
    assert!(matches!(classify(&"busH".to_string()), Role::Ignored));
    assert!(matches!(classify(&"Version".to_string()), Role::Ignored));
}

#[test]
fn first_matching_attribute_wins() {
    let a = pairs(&[("number", "3"), ("key", "k")]);
    assert_eq!(attr_value(&a, "key"), Some("k".to_string()));
    assert_eq!(attr_value(&a, "duration"), None);
}
