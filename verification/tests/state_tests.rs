use jalert_receiver::classify::from_json_line;
use jalert_receiver::model::Category;
use jalert_receiver::state::AppState;
use serde_json::Value;

fn object(members: Vec<(&str, Value)>) -> String {
    let mut m = serde_json::Map::new();
    for (k, v) in members {
        m.insert(k.to_string(), v);
    }
    Value::Object(m).to_string()
}

fn text(s: &str) -> Value {
    Value::String(s.to_string())
}

fn line(area: &str, kind: &str, status: &str) -> String {
    let xml = format!(
        "<Report xmlns=\"http://x/\"><Body xmlns=\"http://x/c/\">\
         <Warning type=\"気象警報・注意報（府県予報区等）\"><Item>\
         <Kind><Name>{kind}</Name><Status>{status}</Status></Kind>\
         <Area><Name>{area}</Name></Area></Item></Warning></Body></Report>"
    );
    object(vec![
        ("decoded", Value::Bool(true)),
        ("rx_time_ms", Value::from(1i64)),
        ("chunk_type", text("WRMA")),
        ("head_title", text(&format!("{area}気象警報・注意報"))),
        ("info_type", text(status)),
        ("headline", text("x")),
        ("xml", text(&xml)),
    ])
}

#[test]
fn alert_then_clear_returns_to_standby() {
    let mut st = AppState::new("test".into());
    st.ingest(from_json_line(&line("東京都", "大雨警報", "発表")).unwrap());
    assert_eq!(st.mode(), "alert");
    st.ingest(from_json_line(&line("東京都", "大雨警報", "解除")).unwrap());
    assert_eq!(st.mode(), "standby");
}

#[test]
fn retransmit_does_not_duplicate_inbox() {
    let mut st = AppState::new("test".into());
    st.ingest(from_json_line(&line("東京都", "大雨警報", "発表")).unwrap());
    st.ingest(from_json_line(&line("東京都", "大雨警報", "発表")).unwrap());
    assert_eq!(st.inbox().len(), 1);
}

#[test]
fn disabling_display_rule_keeps_it_off_the_kiosk() {
    let mut st = AppState::new("test".into());
    // Turn off weather display.
    for r in &mut st.rules {
        if r.category == Category::Weather {
            r.display = false;
        }
    }
    st.ingest(from_json_line(&line("東京都", "大雨警報", "発表")).unwrap());
    assert_eq!(st.mode(), "standby"); // logged but not shown
    assert_eq!(st.inbox().len(), 1);
}

#[test]
fn eew_takes_over_screen() {
    let mut st = AppState::new("test".into());
    let l = object(vec![
        ("decoded", Value::Bool(true)),
        ("rx_time_ms", Value::from(9i64)),
        ("alert_type", text("EPRQ")),
        ("alert_sub_type", text("緊急地震速報")),
        ("info_type", text("発表")),
        ("headline", text("警戒")),
    ]);
    st.ingest(from_json_line(&l).unwrap());
    assert_eq!(st.mode(), "alert");
}

#[test]
fn read_tracking() {
    let mut st = AppState::new("test".into());
    st.ingest(from_json_line(&line("東京都", "大雨警報", "発表")).unwrap());
    assert_eq!(st.unread(), 1);
    let id = st.inbox()[0].id;
    st.mark_read(id, true);
    assert_eq!(st.unread(), 0);
}
