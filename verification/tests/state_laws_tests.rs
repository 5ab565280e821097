use jalert_receiver::classify::from_json_line;
use jalert_receiver::model::{AlertType, Category, LampGroup, Severity};
use jalert_receiver::state::AppState;
use serde_json::Value;

fn object(members: Vec<(&str, Value)>) -> String {
    let mut m = serde_json::Map::new();
    for (k, v) in members {
        m.insert(k.to_string(), v);
    }
    Value::Object(m).to_string()
}

fn text(s: &str) -> Value {
    Value::String(s.to_string())
}

fn weather(area: &str, kind: &str, status: &str) -> String {
    let xml = format!(
        "<Report xmlns=\"http://x/\"><Body xmlns=\"http://x/c/\">\
         <Warning type=\"気象警報・注意報（府県予報区等）\"><Item>\
         <Kind><Name>{kind}</Name><Status>{status}</Status></Kind>\
         <Area><Name>{area}</Name></Area></Item></Warning></Body></Report>"
    );
    object(vec![
        ("decoded", Value::Bool(true)),
        ("rx_time_ms", Value::from(1i64)),
        ("chunk_type", text("WRMA")),
        ("head_title", text(&format!("{area}気象警報・注意報"))),
        ("info_type", text(status)),
        ("headline", text("x")),
        ("xml", text(&xml)),
    ])
}

fn telegram(code: &str, sub: &str, rx: i64) -> String {
    object(vec![
        ("decoded", Value::Bool(true)),
        ("rx_time_ms", Value::from(rx)),
        ("alert_type", text(code)),
        ("alert_sub_type", text(sub)),
        ("info_type", text("発表")),
        ("channel", text("地上系")),
    ])
}

#[test]
fn cancellation_removes_the_channel() {
    let mut st = AppState::new("t".into());
    st.ingest_at(from_json_line(&weather("東京都", "大雨警報", "発表")).unwrap(), 10);
    assert_eq!(st.channels().len(), 1);
    st.ingest_at(from_json_line(&weather("東京都", "大雨警報", "解除")).unwrap(), 20);
    assert_eq!(st.channels().len(), 0);
    assert_eq!(st.inbox().len(), 2);
}

#[test]
fn newer_report_supersedes() {
    let mut st = AppState::new("t".into());
    st.ingest_at(from_json_line(&weather("東京都", "大雨警報", "発表")).unwrap(), 10);
    st.ingest_at(from_json_line(&weather("東京都", "雷注意報", "発表")).unwrap(), 20);
    assert_eq!(st.channels().len(), 1);
    assert_eq!(st.channels()[0].severity, Severity::Advisory);
    assert_eq!(st.mode(), "advisory");
    assert_eq!(st.top_severity(), Severity::Advisory);
}

#[test]
fn urgent_report_has_a_primary_alert() {
    let mut st = AppState::new("t".into());
    assert!(st.primary().is_none());
    st.ingest_at(from_json_line(&telegram("EPRQ", "緊急地震速報", 5)).unwrap(), 5);
    assert_eq!(st.mode(), "alert");
    assert_eq!(st.primary().unwrap().category, Category::Eew);
    assert_eq!(st.last_terr_ms, 5);
    assert_eq!(st.receiver.total_lines, 1);
}

#[test]
fn alerts_come_by_priority() {
    let mut st = AppState::new("t".into());
    st.ingest_at(from_json_line(&telegram("EPRQ", "緊急地震速報", 5)).unwrap(), 5);
    st.ingest_at(from_json_line(&telegram("JALT", "国民保護情報", 6)).unwrap(), 6);
    st.ingest_at(from_json_line(&telegram("ISSW", "津波警報", 7)).unwrap(), 7);
    let order: Vec<Category> = st.alerts().iter().map(|c| c.category).collect();
    assert_eq!(order, vec![Category::CivilProtection, Category::Eew, Category::Tsunami]);
    assert_eq!(st.top_severity(), Severity::Emergency);
}

#[test]
fn lamps_light_once_per_group() {
    let mut st = AppState::new("t".into());
    st.ingest_at(from_json_line(&telegram("EPRQ", "緊急地震速報", 5)).unwrap(), 5);
    st.ingest_at(from_json_line(&telegram("IOEQ", "震度速報", 6)).unwrap(), 6);
    assert_eq!(st.active_lamps(), vec![LampGroup::Earthquake]);
    assert_eq!(st.advisories().len(), 1);
}

#[test]
fn mark_all_read_leaves_none_unread() {
    let mut st = AppState::new("t".into());
    st.ingest_at(from_json_line(&telegram("EPRQ", "緊急地震速報", 5)).unwrap(), 5);
    st.ingest_at(from_json_line(&telegram("IOEQ", "震度速報", 6)).unwrap(), 6);
    assert_eq!(st.unread(), 2);
    let newest = st.inbox()[0].id;
    st.mark_read(newest, true);
    assert_eq!(st.unread(), 1);
    st.mark_read(newest, false);
    assert_eq!(st.unread(), 2);
    st.mark_read(9999, true);
    assert_eq!(st.unread(), 2);
    st.mark_all_read();
    assert_eq!(st.unread(), 0);
    assert!(st.item(newest).unwrap().read);
}

#[test]
fn counts_follow_telegram_types() {
    let mut st = AppState::new("t".into());
    st.ingest_at(from_json_line(&telegram("EPRQ", "緊急地震速報", 5)).unwrap(), 5);
    st.ingest_at(from_json_line(&telegram("EPRQ", "緊急地震速報", 6)).unwrap(), 6);
    let counts = st.type_counts();
    assert_eq!(counts.len(), 8);
    assert_eq!(counts[0], (AlertType::Jalt, 0));
    assert_eq!(counts[1], (AlertType::Eprq, 2));
    assert_eq!(counts[2].0, AlertType::Issw);
    assert_eq!(counts[3].0, AlertType::Volc);
    assert_eq!(counts[4].0, AlertType::Ifda);
    assert_eq!(counts[5].0, AlertType::Ioeq);
    assert_eq!(counts[6].0, AlertType::Wrma);
    assert_eq!(counts[7].0, AlertType::Unknown);
}

#[test]
fn mailbox_keeps_the_last_five_hundred() {
    let mut st = AppState::new("t".into());
    for i in 0..501 {
        let area = format!("地域{i}");
        st.ingest_at(from_json_line(&weather(&area, "大雨警報", "発表")).unwrap(), i);
    }
    assert_eq!(st.inbox().len(), 500);
    assert_eq!(st.inbox()[0].id, 501);
    assert_eq!(st.inbox()[499].id, 2);
}

#[test]
fn manual_injection_and_clear() {
    let mut st = AppState::new("t".into());
    st.inject_manual(AlertType::Jalt, Category::CivilProtection, "東京都".into(), String::new(), "ミサイル".into());
    assert_eq!(st.mode(), "alert");
    assert_eq!(st.primary().unwrap().area_name, "東京都");
    st.clear_alerts();
    assert_eq!(st.mode(), "standby");
    assert_eq!(st.inbox().len(), 1);
}

#[test]
fn connect_test_reports_the_link() {
    let mut st = AppState::new("127.0.0.1:7355".into());
    st.run_connect_test_at(42);
    let r = st.connect_test.clone().unwrap();
    assert!(!r.ok);
    assert_eq!(r.at_ms, 42);
    assert!(r.message.contains("127.0.0.1:7355"));
    st.set_connected(true);
    st.run_connect_test_at(43);
    assert!(st.connect_test.clone().unwrap().ok);
}

#[test]
fn line_ingest_reports_use() {
    let mut st = AppState::new("t".into());
    assert!(st.has_room());
    assert!(!st.ingest_line("{\"decoded\":false}"));
    assert!(!st.ingest_line("not json"));
    assert!(st.ingest_line(&telegram("VOLC", "噴火警報", 1)));
    assert_eq!(st.mode(), "alert");
    assert_eq!(st.rules.len(), 10);
}

#[test]
fn hidden_report_is_still_recorded() {
    let mut st = AppState::new("t".into());
    for r in &mut st.rules {
        if r.category == Category::Eew {
            r.display = false;
        }
    }
    st.ingest_at(from_json_line(&telegram("EPRQ", "緊急地震速報", 5)).unwrap(), 5);
    assert_eq!(st.mode(), "standby");
    assert!(st.primary().is_none());
    let newest = st.inbox()[0];
    assert_eq!(newest.category, Category::Eew);
    assert!(!newest.allowed);
    assert!(!newest.read);
    assert_eq!(newest.id, 1);
    assert_eq!(st.next_id(), 2);
}

#[test]
fn every_category_shows_by_default() {
    let st = AppState::new("t".into());
    assert!(st.rules.iter().all(|r| r.display));
    let cats: Vec<Category> = st.rules.iter().map(|r| r.category).collect();
    assert_eq!(cats.len(), 10);
    assert_eq!(cats[0], Category::CivilProtection);
    assert_eq!(cats[9], Category::Other);
    for w in st.rules.windows(2) {
        assert!(w[0].category.priority() >= w[1].category.priority());
    }
}

#[test]
fn connect_test_now() {
    let mut st = AppState::new("replay:x.jsonl".into());
    st.set_connected(true);
    st.run_connect_test();
    let r = st.connect_test.clone().unwrap();
    assert!(r.ok);
    assert!(r.message.contains("replay:x.jsonl"));
}

#[test]
fn counts_add_up_to_lines() {
    let mut st = AppState::new("t".into());
    st.ingest_at(from_json_line(&telegram("EPRQ", "緊急地震速報", 5)).unwrap(), 5);
    st.ingest_at(from_json_line(&weather("東京都", "大雨警報", "発表")).unwrap(), 6);
    st.ingest_at(from_json_line(&telegram("VOLC", "噴火警報", 7)).unwrap(), 7);
    let total: u64 = st.type_counts().iter().map(|(_, n)| n).sum();
    assert_eq!(total, st.receiver.total_lines);
    assert_eq!(total, 3);
}

#[test]
fn eew_retransmit_is_collapsed() {
    let mut st = AppState::new("t".into());
    st.ingest_at(from_json_line(&telegram("EPRQ", "緊急地震速報", 5)).unwrap(), 5);
    st.ingest_at(from_json_line(&telegram("EPRQ", "緊急地震速報", 9)).unwrap(), 9);
    assert_eq!(st.inbox().len(), 1);
    assert_eq!(st.inbox()[0].rx_time_ms, 9);
    assert_eq!(st.next_id(), 2);
    assert_eq!(st.channels().len(), 1);
}

fn headed(code: &str, sub: &str, head: &str, rx: i64) -> String {
    object(vec![
        ("decoded", Value::Bool(true)),
        ("rx_time_ms", Value::from(rx)),
        ("alert_type", text(code)),
        ("alert_sub_type", text(sub)),
        ("head_title", text(head)),
        ("info_type", text("発表")),
        ("channel", text("地上系")),
    ])
}

#[test]
fn primary_is_first_alert_among_ties() {
    let mut st = AppState::new("t".into());
    st.ingest_at(from_json_line(&headed("EPRQ", "緊急地震速報", "第1報", 5)).unwrap(), 5);
    st.ingest_at(from_json_line(&headed("EPRQ", "緊急地震速報", "第2報", 5)).unwrap(), 5);
    let alerts = st.alerts();
    assert_eq!(alerts.len(), 2);
    assert_eq!(alerts[0].head_title, "第1報");
    assert_eq!(st.primary().unwrap().head_title, alerts[0].head_title);
}

#[test]
fn mode_matches_top_level_and_lists() {
    let mut st = AppState::new("t".into());
    assert_eq!(st.mode(), "standby");
    assert_eq!(st.top_severity(), Severity::Clear);
    assert!(st.alerts().is_empty() && st.advisories().is_empty());
    st.ingest_at(from_json_line(&weather("東京都", "雷注意報", "発表")).unwrap(), 10);
    assert_eq!(st.mode(), "advisory");
    assert_eq!(st.top_severity(), Severity::Advisory);
    assert!(st.alerts().is_empty());
    assert_eq!(st.advisories().len(), 1);
    st.ingest_at(from_json_line(&telegram("EPRQ", "緊急地震速報", 11)).unwrap(), 11);
    assert_eq!(st.mode(), "alert");
    assert!(st.top_severity() >= Severity::Warning);
    assert_eq!(st.alerts().len(), 1);
    assert_eq!(st.advisories().len(), 1);
    assert_ne!(st.alerts()[0].key, st.advisories()[0].key);
}

#[test]
fn read_marks_touch_only_the_mailbox() {
    let mut st = AppState::new("t".into());
    st.set_connected(true);
    st.ingest_at(from_json_line(&telegram("EPRQ", "緊急地震速報", 5)).unwrap(), 5);
    let id = st.inbox()[0].id;
    st.mark_read(id, true);
    assert!(st.receiver.connected);
    assert_eq!(st.receiver.total_lines, 1);
    assert_eq!(st.last_terr_ms, 5);
    st.mark_read(9999, false);
    assert!(st.item(id).unwrap().read);
    st.mark_all_read();
    let once: Vec<(u64, bool)> = st.inbox().iter().map(|h| (h.id, h.read)).collect();
    st.mark_all_read();
    let twice: Vec<(u64, bool)> = st.inbox().iter().map(|h| (h.id, h.read)).collect();
    assert_eq!(once, twice);
    assert!(st.receiver.connected);
    assert_eq!(st.channels().len(), 1);
}

#[test]
fn counts_over_a_run_tally_each_type() {
    let mut st = AppState::new("t".into());
    st.ingest_at(from_json_line(&telegram("EPRQ", "緊急地震速報", 5)).unwrap(), 5);
    st.ingest_at(from_json_line(&telegram("VOLC", "噴火警報", 6)).unwrap(), 6);
    st.ingest_at(from_json_line(&telegram("EPRQ", "緊急地震速報", 7)).unwrap(), 7);
    st.inject_manual(AlertType::Jalt, Category::CivilProtection, "東京都".into(), String::new(), "訓練".into());
    let counts = st.type_counts();
    assert_eq!(
        counts,
        vec![
            (AlertType::Jalt, 1),
            (AlertType::Eprq, 2),
            (AlertType::Issw, 0),
            (AlertType::Volc, 1),
            (AlertType::Ifda, 0),
            (AlertType::Ioeq, 0),
            (AlertType::Wrma, 0),
            (AlertType::Unknown, 0),
        ]
    );
}

#[test]
fn connect_test_touches_only_its_result() {
    let mut st = AppState::new("t".into());
    st.ingest_at(from_json_line(&telegram("EPRQ", "緊急地震速報", 5)).unwrap(), 5);
    let before_terr = st.last_terr_ms;
    st.run_connect_test_at(77);
    assert_eq!(st.last_terr_ms, before_terr);
    assert_eq!(st.last_sat_ms, 0);
    assert_eq!(st.channels().len(), 1);
    assert_eq!(st.next_id(), 2);
    assert_eq!(st.connect_test.as_ref().unwrap().at_ms, 77);
}
