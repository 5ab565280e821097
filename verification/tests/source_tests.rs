use jalert_receiver::source::{endpoint_label, replay_lines, SourceConfig};
use jalert_receiver::state::AppState;

#[test]
fn replay_file_records() {
    assert_eq!(replay_lines("a\r\n\n  \nb\n"), vec!["a".to_string(), "b".to_string()]);
    assert_eq!(replay_lines("x"), vec!["x".to_string()]);
    assert_eq!(replay_lines("x\r"), vec!["x\r".to_string()]);
    assert_eq!(replay_lines(""), Vec::<String>::new());
    assert_eq!(replay_lines("\n\n"), Vec::<String>::new());
    let text = "{\"a\":1}\r\n\t\n{\"b\":2}";
    let want: Vec<String> = text.lines().filter(|l| !l.trim().is_empty()).map(str::to_string).collect();
    assert_eq!(replay_lines(text), want);
}

#[test]
fn source_names() {
    assert_eq!(endpoint_label("127.0.0.1", 7355), "127.0.0.1:7355");
    let tcp = SourceConfig { host: "10.0.0.2".into(), port: 80, replay: None, replay_interval_ms: 800 };
    assert_eq!(tcp.label(), "10.0.0.2:80");
    let file = SourceConfig { replay: Some("d.jsonl".into()), ..tcp.clone() };
    assert_eq!(file.label(), "replay:d.jsonl");
    assert!(!tcp.endpoint_differs("10.0.0.2", 80));
    assert!(tcp.endpoint_differs("10.0.0.2", 81));
    assert!(tcp.endpoint_differs("10.0.0.3", 80));
}

#[test]
fn pointing_the_source_renames_it() {
    let mut st = AppState::new("127.0.0.1:7355".into());
    st.point_source("192.168.1.5", 9000);
    assert_eq!(st.receiver.source, "192.168.1.5:9000");
}
