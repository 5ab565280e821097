use chrono::TimeZone;
use jalert_receiver::model::{AlertType, Category, Severity};
use jalert_receiver::ui::{
    hms, hms_of, link_label, CLOCK_MAX_MS, CLOCK_MIN_MS, manual_area, md_hms, md_hms_of, manual_kind, read_toggle_label, tag_label, unread_badge,
    AlertScreen, StandbyStyle, ThemePref,
};

#[test]
fn status_texts() {
    assert_eq!(link_label(true), "接続中");
    assert_eq!(link_label(false), "切断");
    assert_eq!(unread_badge(0), None);
    assert_eq!(unread_badge(12).as_deref(), Some(" 未読 12 "));
    assert_eq!(ThemePref::Dark.label(), "テーマ:ダーク");
    assert_eq!(StandbyStyle::Real.label(), "リアル");
    assert_eq!(StandbyStyle::Simple.note(), "時計＋「異常なし」のみのシンプル表示");
}

#[test]
fn tags_and_buttons() {
    assert_eq!(tag_label(Category::Weather, Severity::Emergency), "特別警報");
    assert_eq!(tag_label(Category::Tsunami, Severity::Clear), "津波情報");
    assert_eq!(read_toggle_label(true), "未読に戻す");
    assert_eq!(read_toggle_label(false), "既読にする");
}

#[test]
fn manual_alerts() {
    assert_eq!(manual_kind(Category::SeismicIntensity), Some(AlertType::Ioeq));
    assert_eq!(manual_kind(Category::CivilProtection), Some(AlertType::Jalt));
    assert_eq!(manual_kind(Category::Test), None);
    assert_eq!(manual_area("東京都", None), "東京都");
    assert_eq!(manual_area("東京都", Some("千代田区")), "東京都 千代田区");
}

#[test]
fn other_areas_line() {
    let mut a = AlertScreen {
        severity: Severity::Warning,
        category: Category::Weather,
        alert_type: AlertType::Wrma,
        area: "東京都".into(),
        info_type: String::new(),
        kinds: vec![],
        headline: String::new(),
        report_time: String::new(),
        rx_time_ms: 0,
        sub_areas: vec![],
        other_count: 0,
        others: vec![],
    };
    assert_eq!(a.area_line(), None);
    assert_eq!(a.info_line(), "発表");
    assert_eq!(a.heading(), "警報");
    a.sub_areas = vec!["伊豆諸島".into(), "小笠原諸島".into()];
    assert_eq!(a.area_line().as_deref(), Some("対象地域　伊豆諸島　小笠原諸島"));
    a.other_count = 12;
    a.info_type = "継続".into();
    assert_eq!(a.info_line(), "継続　／　他 12 件発表中");
}

#[test]
fn clock_texts() {
    assert_eq!(hms_of(Some((6, 28, 9, 5, 7))), "09:05:07");
    assert_eq!(md_hms_of(Some((6, 28, 9, 5, 7))), "06/28 09:05:07");
    assert_eq!(hms_of(None), "—");
    assert_eq!(md_hms_of(None), "—");
    for ms in [0i64, 1_782_640_000_000, 86_399_999] {
        let t = chrono::Local.timestamp_millis_opt(ms).single().unwrap();
        assert_eq!(hms(ms), t.format("%H:%M:%S").to_string());
        assert_eq!(md_hms(ms), t.format("%m/%d %H:%M:%S").to_string());
    }
}

#[test]
fn clock_texts_cover_chronos_range() {
    for ms in [CLOCK_MIN_MS, 0, CLOCK_MAX_MS] {
        assert_ne!(hms(ms), "—");
        assert_ne!(md_hms(ms), "—");
        assert!(md_hms(ms).ends_with(&hms(ms)));
    }
    for ms in [CLOCK_MIN_MS - 1, CLOCK_MAX_MS + 1, i64::MIN, i64::MAX] {
        assert_eq!(hms(ms), "—");
        assert_eq!(md_hms(ms), "—");
    }
}
