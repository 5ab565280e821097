use jalert_receiver::classify::{alert_type_for, detect_category};
use jalert_receiver::model::{
    AlertChannel, AlertKind, AlertType, Category, LampGroup, RxChannel, Severity,
};

#[test]
fn every_code_reads_back_as_its_type() {
    let all = [
        AlertType::Jalt,
        AlertType::Ifda,
        AlertType::Eprq,
        AlertType::Ioeq,
        AlertType::Issw,
        AlertType::Volc,
        AlertType::Wrma,
        AlertType::Unknown,
    ];
    for t in all {
        assert_eq!(AlertType::from_code(t.code()), t);
    }
}

#[test]
fn codes_are_trimmed_and_case_blind() {
    assert_eq!(AlertType::from_code(" wrmx "), AlertType::Wrma);
    assert_eq!(AlertType::from_code("jalt"), AlertType::Jalt);
    assert_eq!(AlertType::from_code("Eprq\n"), AlertType::Eprq);
    assert_eq!(AlertType::from_code("XXXX"), AlertType::Unknown);
    assert_eq!(AlertType::Unknown.code(), "----");
}

#[test]
fn channel_labels_read_back() {
    for c in [RxChannel::Satellite, RxChannel::Terrestrial, RxChannel::Unknown] {
        assert_eq!(RxChannel::from_str(c.label()), c);
    }
    assert_eq!(RxChannel::from_str("sat"), RxChannel::Satellite);
    assert_eq!(RxChannel::from_str(" Ground "), RxChannel::Terrestrial);
    assert_eq!(RxChannel::from_str("衛星"), RxChannel::Satellite);
    assert_eq!(RxChannel::from_str("wifi"), RxChannel::Unknown);
}

#[test]
fn sub_type_keywords_pick_the_category() {
    assert_eq!(Category::from_sub_type("弾道ミサイル情報"), Category::CivilProtection);
    assert_eq!(Category::from_sub_type("緊急連絡"), Category::EmergencyContact);
    assert_eq!(Category::from_sub_type("緊急地震速報"), Category::Eew);
    assert_eq!(Category::from_sub_type("震度速報"), Category::SeismicIntensity);
    assert_eq!(Category::from_sub_type("震源に関する情報"), Category::Earthquake);
    assert_eq!(Category::from_sub_type("大津波警報"), Category::Tsunami);
    assert_eq!(Category::from_sub_type("噴火警報"), Category::Volcano);
    assert_eq!(Category::from_sub_type("気象警報"), Category::Weather);
    assert_eq!(Category::from_sub_type("訓練放送"), Category::Test);
    assert_eq!(Category::from_sub_type("お知らせ"), Category::Other);
}

#[test]
fn categories_of_codes_and_lamps() {
    assert_eq!(Category::from_alert_type(AlertType::Ioeq), Category::Earthquake);
    assert_eq!(Category::from_alert_type(AlertType::Unknown), Category::Other);
    assert_eq!(Category::Eew.lamp_group(), Some(LampGroup::Earthquake));
    assert_eq!(Category::Weather.lamp_group(), None);
    assert_eq!(Category::CivilProtection.priority(), 15);
    assert_eq!(Category::Weather.priority(), 0);
    assert_eq!(LampGroup::ALL.len(), 4);
    assert_eq!(LampGroup::Tsunami.label(), "津波情報");
}

#[test]
fn special_warning_is_tested_before_warning() {
    assert_eq!(Severity::of_name("大雨特別警報"), Severity::Emergency);
    assert_eq!(Severity::of_name("暴風警報"), Severity::Warning);
    assert_eq!(Severity::of_name("雷注意報"), Severity::Advisory);
    assert_eq!(Severity::of_name("情報"), Severity::Clear);
    assert_eq!(Severity::Clear.label(), "解除");
    assert_eq!(Severity::Emergency.rank(), 3);
}

fn channel(category: Category, severity: Severity, info: &str) -> AlertChannel {
    AlertChannel {
        category,
        severity,
        info_type: info.to_string(),
        allowed: true,
        ..AlertChannel::default()
    }
}

#[test]
fn effective_levels_by_category() {
    assert_eq!(channel(Category::CivilProtection, Severity::Clear, "発表").effective_severity(), Severity::Emergency);
    assert_eq!(channel(Category::Tsunami, Severity::Clear, "発表").effective_severity(), Severity::Warning);
    assert_eq!(channel(Category::Weather, Severity::Advisory, "発表").effective_severity(), Severity::Advisory);
    assert_eq!(channel(Category::Earthquake, Severity::Clear, "発表").effective_severity(), Severity::Advisory);
    assert_eq!(channel(Category::Eew, Severity::Warning, "取消").effective_severity(), Severity::Clear);
    assert!(channel(Category::Eew, Severity::Clear, "警報解除").is_cancel());
    assert!(channel(Category::Volcano, Severity::Clear, "発表").is_fullscreen());
    let mut hidden = channel(Category::Volcano, Severity::Clear, "発表");
    hidden.allowed = false;
    assert!(!hidden.is_fullscreen());
}

#[test]
fn area_label_falls_back_to_head_title() {
    let mut c = AlertChannel::default();
    c.head_title = "東京都気象警報・注意報".to_string();
    assert_eq!(c.area_label(), "東京都気象警報・注意報");
    c.area_name = "東京都".to_string();
    assert_eq!(c.area_label(), "東京都");
    let k = AlertKind { name: "大雨警報".to_string(), status: "発表".to_string(), severity: Severity::Warning };
    assert_eq!(k.severity, Severity::Warning);
}

#[test]
fn raw_telegram_codes_follow_their_category() {

    for t in [AlertType::Jalt, AlertType::Ifda, AlertType::Eprq, AlertType::Ioeq, AlertType::Issw, AlertType::Volc, AlertType::Wrma, AlertType::Unknown] {
        assert_eq!(alert_type_for(Category::from_alert_type(t)), t);
    }
    assert_eq!(detect_category("震源・震度に関する情報", ""), Category::Earthquake);
    assert_eq!(detect_category("", "緊急地震速報"), Category::Eew);
    assert_eq!(detect_category("気象警報", ""), Category::Weather);
    assert_eq!(detect_category("", ""), Category::Other);
}

#[test]
fn padded_lower_case_codes_read_back() {
    let all = [
        AlertType::Jalt,
        AlertType::Ifda,
        AlertType::Eprq,
        AlertType::Ioeq,
        AlertType::Issw,
        AlertType::Volc,
        AlertType::Wrma,
        AlertType::Unknown,
    ];
    for t in all {
        let padded = format!(" {} ", t.code().to_ascii_lowercase());
        assert_eq!(AlertType::from_code(&padded), t);
    }
}

#[test]
fn category_labels_read_back() {
    let all = [
        Category::CivilProtection,
        Category::EmergencyContact,
        Category::Eew,
        Category::Earthquake,
        Category::SeismicIntensity,
        Category::Tsunami,
        Category::Volcano,
        Category::Weather,
        Category::Test,
        Category::Other,
    ];
    for c in all {
        assert_eq!(Category::from_sub_type(c.label()), c);
    }
}
