use jalert_receiver::classify::from_json_line;
use jalert_receiver::model::Severity;
use jalert_receiver::state::AppState;
use jalert_receiver::web::{
    find_tunnel_url, param, respond, route, sev_num, split_url, Page, Reply, Request,
};

#[test]
fn severity_numbers() {
    assert_eq!(sev_num(Severity::Clear), 0);
    assert_eq!(sev_num(Severity::Advisory), 1);
    assert_eq!(sev_num(Severity::Warning), 2);
    assert_eq!(sev_num(Severity::Emergency), 3);
}

#[test]
fn tunnel_url_in_cloudflared_output() {
    let line = "2024-01-01T00:00:00Z INF |  https://calm-sea-1234.trycloudflare.com                    |";
    assert_eq!(find_tunnel_url(line).as_deref(), Some("https://calm-sea-1234.trycloudflare.com"));
    assert_eq!(find_tunnel_url("INF Starting tunnel"), None);
    assert_eq!(find_tunnel_url("see https://example.com for help"), None);
    assert_eq!(
        find_tunnel_url("x https://a.trycloudflare.com and https://b.trycloudflare.com").as_deref(),
        Some("https://a.trycloudflare.com")
    );
}

#[test]
fn urls_split_at_the_first_question_mark() {
    assert_eq!(split_url("/api/xml?id=3"), ("/api/xml".to_string(), "id=3".to_string()));
    assert_eq!(split_url("/inbox"), ("/inbox".to_string(), String::new()));
    assert_eq!(split_url("/a?b?c"), ("/a".to_string(), "b?c".to_string()));
    let (p, q) = split_url("/api/read?id=1&read=false");
    assert_eq!(format!("{p}?{q}"), "/api/read?id=1&read=false");
}

#[test]
fn query_parameters() {
    assert_eq!(param("a=1&b=2", "b").as_deref(), Some("2"));
    assert_eq!(param("a&b=2", "a"), None);
    assert_eq!(param("id=1&id=2", "id").as_deref(), Some("1"));
    assert_eq!(param("x=", "x").as_deref(), Some(""));
    assert_eq!(param("x=a=b", "x").as_deref(), Some("a=b"));
    assert_eq!(param("", "x"), None);
}

#[test]
fn requests_are_routed() {
    assert_eq!(route("/", ""), Request::DisplayPage);
    assert_eq!(route("/inbox", ""), Request::MailboxPage);
    assert_eq!(route("/healthz", ""), Request::Health);
    assert_eq!(route("/api/state", ""), Request::StateApi);
    assert_eq!(route("/api/xml", "id=+3"), Request::XmlApi(Some(3)));
    assert_eq!(route("/api/xml", "id=x"), Request::XmlApi(None));
    assert_eq!(route("/api/read", "all=true"), Request::ReadAll);
    assert_eq!(route("/api/read", "all=yes&id=5"), Request::ReadOne(5, true));
    assert_eq!(route("/api/read", "id=5&read=false"), Request::ReadOne(5, false));
    assert_eq!(route("/api/read", "id=nope"), Request::ReadNothing);
    assert_eq!(route("/admin", ""), Request::Unknown);
}

#[test]
fn responses_change_the_mailbox() {
    let mut st = AppState::new("t".into());
    let line = "{\"decoded\":true,\"alert_type\":\"EPRQ\",\"alert_sub_type\":\"緊急地震速報\",\"xml\":\"<r/>\"}";
    st.ingest_at(from_json_line(line).unwrap(), 1);
    let id = st.inbox()[0].id;
    match respond(&mut st, "/api/xml", &format!("id={id}")) {
        Reply::Xml(body) => assert_eq!(body, "<r/>"),
        other => panic!("unexpected reply {other:?}"),
    }
    assert!(matches!(respond(&mut st, "/api/xml", "id=99"), Reply::NotFound));
    assert!(matches!(respond(&mut st, "/", ""), Reply::Html(Page::Display)));
    assert!(matches!(respond(&mut st, "/api/read", &format!("id={id}")), Reply::Text));
    assert_eq!(st.unread(), 0);
    respond(&mut st, "/api/read", &format!("id={id}&read=false"));
    assert_eq!(st.unread(), 1);
    respond(&mut st, "/api/read", "all=true");
    assert_eq!(st.unread(), 0);
    assert!(matches!(respond(&mut st, "/nowhere", ""), Reply::NotFound));
}
