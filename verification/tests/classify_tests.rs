use chrono::TimeZone;
use jalert_receiver::classify::{from_json_line, from_xml, packet_instant, packet_time_to_ms};
use jalert_receiver::model::{AlertType, Category, RxChannel, Severity};
use serde_json::Value;

fn object(members: Vec<(&str, Value)>) -> String {
    let mut m = serde_json::Map::new();
    for (k, v) in members {
        m.insert(k.to_string(), v);
    }
    Value::Object(m).to_string()
}

fn text(s: &str) -> Value {
    Value::String(s.to_string())
}

fn jline(area: &str, kinds: &[(&str, &str)], info: &str) -> String {
    let items: String = kinds
        .iter()
        .map(|(n, st)| format!("<Kind><Name>{n}</Name><Code>03</Code><Status>{st}</Status></Kind>"))
        .collect();
    let xml = format!(
        "<?xml version=\"1.0\"?><Report xmlns=\"http://x/\">\
         <Head xmlns=\"http://x/b/\"><Title>{area}気象警報・注意報</Title></Head>\
         <Body xmlns=\"http://x/c/\">\
         <Warning type=\"気象警報・注意報（府県予報区等）\"><Item>{items}\
         <Area><Name>{area}</Name><Code>014030</Code></Area></Item></Warning></Body></Report>"
    );
    object(vec![
        ("decoded", Value::Bool(true)),
        ("rx_time_ms", Value::from(1_000i64)),
        ("chunk_type", text("WRMA")),
        ("head_title", text(&format!("{area}気象警報・注意報"))),
        ("info_type", text(info)),
        ("headline", text("テスト")),
        ("packet_time", text("20260628200000000")),
        ("xml", text(&xml)),
    ])
}

#[test]
fn raw_weather_xml_is_parsed() {
    let xml = "<Report xmlns=\"http://x/\">\
        <Control><Title>気象特別警報・警報・注意報</Title></Control>\
        <Head xmlns=\"http://x/b/\"><Title>東京都気象警報・注意報</Title>\
          <ReportDateTime>2026-06-28T19:46:00+09:00</ReportDateTime>\
          <InfoType>発表</InfoType>\
          <Headline><Text>東京都では、大雨に警戒してください。</Text></Headline></Head>\
        <Body xmlns=\"http://x/c/\">\
          <Warning type=\"気象警報・注意報（府県予報区等）\"><Item>\
            <Kind><Name>大雨警報</Name><Status>発表</Status></Kind>\
            <Area><Name>東京都</Name></Area></Item></Warning></Body></Report>";
    let c = from_xml(xml, "20260628194600000").unwrap();
    assert_eq!(c.alert_type, AlertType::Wrma);
    assert_eq!(c.category, Category::Weather);
    assert_eq!(c.head_title, "東京都気象警報・注意報");
    assert_eq!(c.title, "気象特別警報・警報・注意報");
    assert_eq!(c.severity, Severity::Warning);
    assert_eq!(c.area_name, "東京都");
    assert!(c.headline.contains("大雨に警戒"));
    assert!(c.report_time.starts_with("2026-06-28T19:46"));
    assert!(c.rx_time_ms > 0);
}

#[test]
fn raw_quake_xml_extracts_intensity() {
    let xml = "<Report xmlns=\"http://x/\" xmlns:jmx_eb=\"http://e/\">\
        <Control><Title>震源・震度に関する情報</Title></Control>\
        <Head xmlns=\"http://x/b/\"><Title>震源・震度情報</Title>\
          <InfoKind>地震情報</InfoKind>\
          <Headline><Text>地震がありました。</Text></Headline></Head>\
        <Body xmlns=\"http://s/\">\
          <Earthquake><Hypocenter><Area><Name>茨城県沖</Name></Area></Hypocenter>\
            <jmx_eb:Magnitude>3.3</jmx_eb:Magnitude></Earthquake>\
          <Intensity><Observation><MaxInt>1</MaxInt></Observation></Intensity></Body></Report>";
    let c = from_xml(xml, "20260628233400000").unwrap();
    assert_eq!(c.category, Category::Earthquake);
    assert_eq!(c.alert_type, AlertType::Ioeq);
    assert_eq!(c.area_name, "茨城県沖");
    assert!(c.headline.contains("最大震度 1"));
    assert!(c.headline.contains("M3.3"));
}

#[test]
fn weather_warning_is_classified() {
    let c = from_json_line(&jline("東京都", &[("大雨警報", "発表"), ("雷注意報", "発表")], "発表")).unwrap();
    assert_eq!(c.alert_type, AlertType::Wrma);
    assert_eq!(c.category, Category::Weather);
    assert_eq!(c.severity, Severity::Warning);
    assert_eq!(c.area_name, "東京都");
    assert_eq!(c.kinds.len(), 2);
    assert_eq!(c.kinds[0].name, "大雨警報"); // most severe first
    assert!(c.is_fullscreen());
}

#[test]
fn emergency_beats_warning() {
    let c = from_json_line(&jline("沖縄", &[("大雨特別警報", "発表"), ("暴風警報", "発表")], "発表")).unwrap();
    assert_eq!(c.effective_severity(), Severity::Emergency);
}

#[test]
fn cancelled_kinds_drop_severity() {
    let c = from_json_line(&jline("東京都", &[("大雨警報", "解除"), ("雷注意報", "継続")], "更新")).unwrap();
    assert_eq!(c.severity, Severity::Advisory); // only 雷注意報 remains in force
    assert!(!c.is_fullscreen());
}

#[test]
fn eew_telegram_classifies_without_xml() {
    let line = object(vec![
        ("decoded", Value::Bool(true)),
        ("rx_time_ms", Value::from(2i64)),
        ("alert_type", text("EPRQ")),
        ("alert_sub_type", text("緊急地震速報")),
        ("info_type", text("発表")),
        ("headline", text("強い揺れに警戒")),
        ("channel", text("衛星系")),
    ]);
    let c = from_json_line(&line).unwrap();
    assert_eq!(c.alert_type, AlertType::Eprq);
    assert_eq!(c.category, Category::Eew);
    assert_eq!(c.channel, RxChannel::Satellite);
    assert!(c.is_fullscreen());
}

#[test]
fn civil_protection_is_emergency() {
    let line = object(vec![
        ("decoded", Value::Bool(true)),
        ("rx_time_ms", Value::from(3i64)),
        ("alert_type", text("JALT")),
        ("alert_sub_type", text("国民保護情報")),
        ("info_type", text("発表")),
        ("headline", text("ミサイル発射情報")),
    ]);
    let c = from_json_line(&line).unwrap();
    assert_eq!(c.category, Category::CivilProtection);
    assert_eq!(c.effective_severity(), Severity::Emergency);
}

#[test]
fn seismic_intensity_is_advisory_banner() {
    let line = object(vec![
        ("decoded", Value::Bool(true)),
        ("rx_time_ms", Value::from(4i64)),
        ("alert_type", text("IOEQ")),
        ("alert_sub_type", text("震度速報")),
        ("info_type", text("発表")),
    ]);
    let c = from_json_line(&line).unwrap();
    assert_eq!(c.category, Category::SeismicIntensity);
    assert_eq!(c.effective_severity(), Severity::Advisory);
    assert!(!c.is_fullscreen());
}

#[test]
fn non_decoded_is_ignored() {
    assert!(from_json_line(r#"{"decoded":false,"chunk_type":"abcd"}"#).is_none());
}

#[test]
fn line_members_are_read() {
    let line = object(vec![
        ("decoded", Value::Bool(true)),
        ("rx_time_ms", Value::from(1234i64)),
        ("alert_type", text("ISSW")),
        ("alert_sub_type", text("大津波警報")),
        ("info_type", text("発表")),
        ("head_title", text("大津波警報")),
        ("headline", text("直ちに避難")),
        ("source", text("terrestrial")),
    ]);
    let c = from_json_line(&format!("  {line}\n")).unwrap();
    assert_eq!(c.rx_time_ms, 1234);
    assert_eq!(c.alert_type, AlertType::Issw);
    assert_eq!(c.category, Category::Tsunami);
    assert_eq!(c.channel, RxChannel::Terrestrial);
    assert_eq!(c.headline, "直ちに避難");
    assert_eq!(c.key, "津波情報|大津波警報");
    assert!(from_json_line("").is_none());
    assert!(from_json_line("{broken").is_none());
    assert!(from_json_line("{\"decoded\":true,\"alert_type\":\"ZZZZ\"}").is_none());
}

#[test]
fn unparsable_xml_is_none() {
    assert!(from_xml("<a><b></a>", "").is_none());
    let c = from_xml("<Report><Control><Title>噴火警報</Title></Control></Report>", "").unwrap();
    assert_eq!(c.category, Category::Volcano);
    assert_eq!(c.rx_time_ms, 0);
}

#[test]
fn packet_times_are_local_instants() {
    let ms = packet_time_to_ms("20260628194600000");
    let wall = chrono::Utc.with_ymd_and_hms(2026, 6, 28, 19, 46, 0).unwrap().timestamp_millis();
    assert!((ms - wall).abs() < 86_400_000);
    let local = chrono::Local.with_ymd_and_hms(2026, 6, 28, 19, 46, 0).single().map(|d| d.timestamp_millis());
    assert_eq!(Some(ms), local);
    assert_eq!(packet_time_to_ms("20261328194600000"), 0);
    assert_eq!(packet_time_to_ms("20260230000000000"), 0);
    assert_eq!(packet_time_to_ms("2026"), 0);
    assert_eq!(packet_time_to_ms("2026062819460x"), 0);
}

#[test]
fn packet_times_keep_their_milliseconds() {
    let local = chrono::Local.with_ymd_and_hms(2026, 6, 28, 19, 46, 0).single().map(|d| d.timestamp_millis());
    assert_eq!(Some(packet_time_to_ms("20260628194600123")), local.map(|t| t + 123));
    assert_eq!(Some(packet_time_to_ms("20260628194600")), local);
    assert_eq!(packet_time_to_ms("20260628194600abc"), 0);
    assert_eq!(packet_instant(Some(1_000), 250), 1_250);
    assert_eq!(packet_instant(None, 250), 0);
}
