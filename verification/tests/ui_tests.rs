use jalert_receiver::classify::from_json_line;
use jalert_receiver::model::{Category, LampGroup, Severity};
use jalert_receiver::state::AppState;
use jalert_receiver::ui::{
    admin_tabs, alert_art, announcement_for, cat_color, channel_summary, dash_if_empty, endpoint_form_ok, hms, md_hms,
    mode_summary, panel_lamps, parse_port, report_fmt, sev_color, sev_ink, AdminTab, AlertArt, Announcement, Lit, Rgb, Role,
    Screen, Session,
};

#[test]
fn roles_and_passwords() {
    assert!(Role::Sysadm.authenticate("jl10ad"));
    assert!(Role::Operator.authenticate("opjl10"));
    assert!(Role::User.authenticate("usjl10"));
    assert!(!Role::User.authenticate("jl10ad"));
    assert!(Role::Operator.is_operator());
    assert!(!Role::User.is_operator());
    assert_eq!(Role::ALL.len(), 3);
    assert_eq!(Role::Sysadm.label(), "システム管理者");
}

#[test]
fn login_session() {
    let mut s = Session::new();
    assert!(!s.submit_login(Role::Operator, "wrong"));
    assert!(!s.logged_in);
    assert_eq!(s.error.as_deref(), Some("ログイン名、パスワードが一致しません"));
    assert!(s.submit_login(Role::Operator, " opjl10 "));
    assert!(s.logged_in && s.role == Role::Operator && s.error.is_none());
    s.select(AdminTab::Cwsd);
    assert_eq!(s.current_tab(), AdminTab::Cwsd);
    assert_eq!(s.tabs().len(), 8);
    assert_eq!(s.tabs()[3], AdminTab::Manual);
    s.select(AdminTab::Manual);
    assert_eq!(s.current_tab(), AdminTab::Manual);
    s.logout();
    assert!(s.submit_login(Role::User, "usjl10"));
    s.select(AdminTab::SystemStatus);
    assert_eq!(s.current_tab(), AdminTab::Top);
    s.select(AdminTab::Manual);
    assert_eq!(s.current_tab(), AdminTab::Top);
    assert_eq!(s.tabs(), admin_tabs(false));
    assert_eq!(admin_tabs(false).len(), 5);
}

#[test]
fn front_panel_lamps() {
    let p = panel_lamps(true, 1_000, 0, false, 120_999);
    assert_eq!((p.link, p.status, p.satellite, p.terrestrial, p.app, p.external), (Lit::Green, Lit::Green, Lit::Green, Lit::Off, Lit::Off, Lit::Off));
    let q = panel_lamps(false, 1_000, 5_000, true, 121_000);
    assert_eq!((q.link, q.status, q.satellite, q.terrestrial, q.app), (Lit::Off, Lit::Red, Lit::Off, Lit::Green, Lit::Red));
    let r = panel_lamps(false, i64::MIN + 1, 0, false, i64::MAX);
    assert_eq!((r.satellite, r.status), (Lit::Off, Lit::Off));
}

#[test]
fn top_tab_texts() {
    assert_eq!(mode_summary("alert"), "緊急情報を表示中");
    assert_eq!(mode_summary("advisory"), "注意・情報あり");
    assert_eq!(mode_summary("standby"), "受信待機中（異常なし）");
    assert_eq!(dash_if_empty(""), "—");
    assert_eq!(dash_if_empty("発表"), "発表");
}

fn state_with_two() -> AppState {
    let mut st = AppState::new("t".into());
    let weather = "{\"decoded\":true,\"chunk_type\":\"WRMA\",\"head_title\":\"東京都気象警報・注意報\",\"info_type\":\"発表\",\"headline\":\"大雨\",\"xml\":\"<Report><Body><Warning type=\\\"気象警報・注意報（府県予報区等）\\\"><Item><Kind><Name>大雨警報</Name><Status>発表</Status></Kind><Kind><Name>雷注意報</Name><Status>発表</Status></Kind><Area><Name>東京都</Name></Area></Item></Warning></Body></Report>\"}";
    let eew = "{\"decoded\":true,\"alert_type\":\"EPRQ\",\"alert_sub_type\":\"緊急地震速報\",\"headline\":\"強い揺れ\"}";
    st.ingest_at(from_json_line(weather).unwrap(), 10);
    st.ingest_at(from_json_line(eew).unwrap(), 20);
    st
}

#[test]
fn mailbox_rows_and_search() {
    let st = state_with_two();
    let all = st.mail_rows("");
    assert_eq!(all.len(), 2);
    assert_eq!(all[0].category, Category::Eew);
    assert_eq!(all[0].kinds, "強い揺れ");
    assert_eq!(all[1].area, "東京都");
    assert_eq!(all[1].kinds, "大雨警報・雷注意報");
    let tokyo = st.mail_rows(" 東京 ");
    assert_eq!(tokyo.len(), 1);
    assert_eq!(tokyo[0].category, Category::Weather);
    let by_code = st.mail_rows("EPRQ");
    assert_eq!(by_code.len(), 1);
    assert_eq!(by_code[0].category, Category::Eew);
    assert!(st.mail_rows("大阪").is_empty());
    let d = st.detail(all[1].id).unwrap();
    assert_eq!(d.area, "東京都");
    assert_eq!(d.item.kinds.len(), 2);
    assert!(st.detail(77).is_none());
}

#[test]
fn kiosk_screens() {
    let st = state_with_two();
    match st.screen() {
        Screen::Alert(a) => {
            assert_eq!(a.category, Category::Eew);
            assert_eq!(a.heading(), "緊急地震速報");
            assert_eq!(a.other_count, 1);
            assert_eq!(a.info_line(), "発表　／　他 1 件発表中");
            assert_eq!(a.others, vec!["気象情報 東京都：大雨警報・雷注意報".to_string()]);
        }
        Screen::Standby { .. } => panic!("expected an alert"),
    }
    let mut calm = AppState::new("t".into());
    let quake = "{\"decoded\":true,\"alert_type\":\"IOEQ\",\"alert_sub_type\":\"震度速報\",\"head_title\":\"震度速報\"}";
    calm.ingest_at(from_json_line(quake).unwrap(), 1);
    match calm.screen() {
        Screen::Standby { banners, lamps } => {
            assert_eq!(banners, vec!["【震度速報】震度速報".to_string()]);
            assert_eq!(lamps, vec![LampGroup::Earthquake]);
        }
        Screen::Alert(_) => panic!("expected standby"),
    }
}

#[test]
fn report_times() {
    assert_eq!(report_fmt("2026-06-28T19:46:00+09:00"), "2026/06/28 19:46");
    assert_eq!(report_fmt(""), "—");
    assert_eq!(report_fmt("昨日"), "昨日");
    let t = hms(0);
    assert_eq!(t.chars().count(), 8);
    assert_eq!(t.chars().nth(2), Some(':'));
    assert_eq!(md_hms(0).chars().count(), 14);
}

#[test]
fn colours_and_sounds() {
    assert_eq!(sev_color(Severity::Warning), Rgb { r: 0xce, g: 0x00, b: 0x12 });
    assert_eq!(sev_ink(Severity::Advisory), Rgb { r: 0x1a, g: 0x1a, b: 0x1c });
    assert_eq!(sev_ink(Severity::Emergency), Rgb { r: 0xff, g: 0xff, b: 0xff });
    assert_eq!(cat_color(Category::Weather), Rgb { r: 0x1f, g: 0x6f, b: 0xb2 });
    assert_eq!(announcement_for(Category::SeismicIntensity), Some(Announcement::Earthquake));
    assert_eq!(announcement_for(Category::Weather), None);
}

#[test]
fn typed_ports_and_endpoints() {
    assert_eq!(parse_port(" 8080 "), Some(8080));
    assert_eq!(parse_port("65535"), Some(65535));
    assert_eq!(parse_port("65536"), None);
    assert_eq!(parse_port("port"), None);
    assert!(endpoint_form_ok("127.0.0.1", "7355"));
    assert!(!endpoint_form_ok("  ", "7355"));
    assert!(!endpoint_form_ok("host", "-1"));
}

#[test]
fn top_tab_channel_lines() {

    let st = state_with_two();
    let lines: Vec<String> = st.alerts().into_iter().map(channel_summary).collect();
    assert_eq!(lines, vec!["緊急地震速報　".to_string(), "気象情報　東京都".to_string()]);
}

#[test]
fn alert_artwork_by_category() {
    assert_eq!(alert_art(Category::CivilProtection), Some(AlertArt::CivilProtection));
    assert_eq!(alert_art(Category::Eew), Some(AlertArt::Earthquake));
    assert_eq!(alert_art(Category::Tsunami), Some(AlertArt::Tsunami));
    assert_eq!(alert_art(Category::Volcano), Some(AlertArt::Volcano));
    assert_eq!(alert_art(Category::Weather), None);
}
