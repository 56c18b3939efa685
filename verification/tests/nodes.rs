use realtime_translation::nodes::{
    audio_node, class_label, class_order, classify, is_audio, node_row, sort_nodes, table_header,
    table_summary, truncate, GlobalObject, MediaClass, NodeInfo, NodeProps, NodeSnapshot,
};

fn object(id: u32, class: Option<&str>, name: Option<&str>, description: Option<&str>) -> GlobalObject {
    GlobalObject {
        id,
        is_node: true,
        props: Some(NodeProps {
            media_class: class.map(str::to_string),
            name: name.map(str::to_string),
            description: description.map(str::to_string),
        }),
    }
}

fn info(id: u32, name: &str, class: MediaClass) -> NodeInfo {
    NodeInfo { id, name: name.into(), description: name.into(), media_class: class }
}

#[test]
fn classify_known_classes() {
    assert_eq!(classify("Audio/Source"), MediaClass::Source);
    assert_eq!(classify("Audio/Source/Virtual"), MediaClass::Source);
    assert_eq!(classify("Audio/Sink"), MediaClass::Sink);
    assert_eq!(classify("Stream/Output/Audio"), MediaClass::StreamOutput);
    assert_eq!(classify("Stream/Input/Audio"), MediaClass::StreamInput);
    assert_eq!(classify("Video/Source"), MediaClass::Other);
}

#[test]
fn is_audio_filter() {
    assert!(is_audio("Audio/Sink"));
    assert!(is_audio("Stream/Output/Audio"));
    assert!(!is_audio("Video/Source"));
    assert!(!is_audio(""));
}

#[test]
fn snapshot_lists_audio_nodes_only() {
    let mut s = NodeSnapshot::new(7);
    s.on_global(object(1, Some("Audio/Sink"), Some("hdmi"), Some("HDMI")));
    s.on_global(object(2, Some("Video/Source"), Some("cam"), None));
    s.on_global(object(3, Some("Stream/Input/Midi"), None, None));
    s.on_global(object(4, None, Some("x"), None));
    s.on_global(GlobalObject { id: 5, is_node: true, props: None });
    let mut port = object(6, Some("Audio/Sink"), None, None);
    port.is_node = false;
    s.on_global(port);
    assert_eq!(s.nodes.len(), 2);
    assert_eq!((s.nodes[0].id, s.nodes[0].name.as_str()), (1, "hdmi"));
    assert_eq!(s.nodes[0].description, "HDMI");
    assert_eq!(s.nodes[1].name, "<unnamed>");
    assert_eq!(s.nodes[1].description, "<unnamed>");
    assert_eq!(s.nodes[1].media_class, MediaClass::Other);
    assert!(!s.done);
    s.on_done(3, 7);
    s.on_done(0, 8);
    assert!(!s.done);
    s.on_done(0, 7);
    assert!(s.done);
}

#[test]
fn description_falls_back_to_the_name() {
    let n = audio_node(object(9, Some("Audio/Source"), Some("mic"), None)).unwrap();
    assert_eq!(n.description, "mic");
    assert_eq!(n.media_class, MediaClass::Source);
}

#[test]
fn table_is_ordered_by_class_then_id() {
    let sorted = sort_nodes(vec![
        info(9, "a", MediaClass::Sink),
        info(4, "b", MediaClass::Other),
        info(7, "c", MediaClass::Source),
        info(2, "d", MediaClass::Sink),
        info(2, "e", MediaClass::Sink),
    ]);
    let names: Vec<&str> = sorted.iter().map(|n| n.name.as_str()).collect();
    assert_eq!(names, vec!["c", "d", "e", "a", "b"]);
    assert_eq!(class_order(MediaClass::StreamOutput), 2);
    assert_eq!(class_order(MediaClass::StreamInput), 3);
    assert_eq!(class_label(MediaClass::StreamOutput), "stream-out");
    assert_eq!(class_label(MediaClass::StreamInput), "stream-in");
    assert_eq!(class_label(MediaClass::Other), "other");
}

#[test]
fn long_names_are_cut() {
    assert_eq!(truncate("abcdef", 6), "abcdef");
    assert_eq!(truncate("abcdefg", 6), "abcde…");
    // Bytes count, not characters.
    assert_eq!(truncate("ééé", 6), "ééé");
    assert_eq!(truncate("éééé", 7), "ééé…");
}

#[test]
fn rows_are_padded() {
    assert_eq!(
        node_row(&info(42, "mic", MediaClass::Source)),
        format!("   42  source          {:<48}  mic", "mic")
    );
    assert_eq!(
        node_row(&info(123456, &"x".repeat(60), MediaClass::Sink)),
        format!("123456  sink            {}…  {}", "x".repeat(47), "x".repeat(60))
    );
    assert_eq!(table_header(), format!("   id  class           {:<48}  description", "name"));
    assert_eq!(table_summary(3), "3 audio nodes");
}
