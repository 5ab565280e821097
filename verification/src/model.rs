//! Core data types shared by the receiver, classifier, state store and UI.
//!
//! Every received telegram carries an `alert_type` (a 4-char telegram code such
//! as WRMA / IOEQ / EPRQ / ISSW / JALT), an `alert_sub_type` (情報種別: what
//! kind of information it is) and an `allowed` flag (whether the display
//! settings let it reach the screen).

use crate::text::{
    eq_ignore_ascii_case, eq_ignore_case, chars_of, is_ws, lower_code, occurs_at, seq_contains, seq_ends_with,
    lemma_contains_trim, str_contains, str_ends_with, trim, trim_end, trim_start, trimmed, upper_code,
    upper_eq,
    upper_equals,
};
use vstd::prelude::*;

verus! {

/// 電文種別コード (`alert_type`) as broadcast on the alert channels.
#[derive(Clone, Copy, PartialEq, Eq, Debug, Default, Structural)]
pub enum AlertType {
    Jalt,
    Ifda,
    Eprq,
    Ioeq,
    Issw,
    Volc,
    Wrma,
    #[default]
    Unknown,
}

/// The 4-char code of a telegram type.
pub open spec fn code_of(t: AlertType) -> Seq<char> {
    match t {
        AlertType::Jalt => "JALT"@,
        AlertType::Ifda => "IFDA"@,
        AlertType::Eprq => "EPRQ"@,
        AlertType::Ioeq => "IOEQ"@,
        AlertType::Issw => "ISSW"@,
        AlertType::Volc => "VOLC"@,
        AlertType::Wrma => "WRMA"@,
        AlertType::Unknown => "----"@,
    }
}

/// The telegram type a code names: the code is trimmed and compared without
/// regard to ASCII case; WRMX is an alias of WRMA.
pub open spec fn type_of_code(s: Seq<char>) -> AlertType {
    let t = trim(s);
    if upper_equals(t, "JALT"@) {
        AlertType::Jalt
    } else if upper_equals(t, "IFDA"@) {
        AlertType::Ifda
    } else if upper_equals(t, "EPRQ"@) {
        AlertType::Eprq
    } else if upper_equals(t, "IOEQ"@) {
        AlertType::Ioeq
    } else if upper_equals(t, "ISSW"@) {
        AlertType::Issw
    } else if upper_equals(t, "VOLC"@) {
        AlertType::Volc
    } else if upper_equals(t, "WRMA"@) || upper_equals(t, "WRMX"@) {
        AlertType::Wrma
    } else {
        AlertType::Unknown
    }
}

impl AlertType {
    /// The 4-char code (`alert_type` symbol, upper-cased) as it appears in the
    /// telegram / logs.
    pub fn code(self) -> (res: &'static str)
        ensures
            res@ == code_of(self),
    {
        match self {
            AlertType::Jalt => "JALT",
            AlertType::Ifda => "IFDA",
            AlertType::Eprq => "EPRQ",
            AlertType::Ioeq => "IOEQ",
            AlertType::Issw => "ISSW",
            AlertType::Volc => "VOLC",
            AlertType::Wrma => "WRMA",
            AlertType::Unknown => "----",
        }
    }

    /// The telegram type a code names (trimmed, ASCII case ignored; WRMX is
    /// WRMA).
    pub fn from_code(s: &str) -> (res: AlertType)
        ensures
            res == type_of_code(s@),
    {
        let t = trimmed(s);
        let v = chars_of(t.as_str());
        if upper_eq(&v, "JALT") {
            AlertType::Jalt
        } else if upper_eq(&v, "IFDA") {
            AlertType::Ifda
        } else if upper_eq(&v, "EPRQ") {
            AlertType::Eprq
        } else if upper_eq(&v, "IOEQ") {
            AlertType::Ioeq
        } else if upper_eq(&v, "ISSW") {
            AlertType::Issw
        } else if upper_eq(&v, "VOLC") {
            AlertType::Volc
        } else if upper_eq(&v, "WRMA") || upper_eq(&v, "WRMX") {
            AlertType::Wrma
        } else {
            AlertType::Unknown
        }
    }
}

/// 情報種別. Drives the colour, the standby category lamps, the display
/// priority and whether a telegram takes over the whole screen.
#[derive(Clone, Copy, PartialEq, Eq, Debug, Default, Structural)]
pub enum Category {
    CivilProtection,
    EmergencyContact,
    Eew,
    Earthquake,
    SeismicIntensity,
    Tsunami,
    Volcano,
    Weather,
    Test,
    #[default]
    Other,
}

/// 情報種別名 of a category.
pub open spec fn category_label(c: Category) -> Seq<char> {
    match c {
        Category::CivilProtection => "国民保護情報"@,
        Category::EmergencyContact => "緊急連絡"@,
        Category::Eew => "緊急地震速報"@,
        Category::Earthquake => "地震情報"@,
        Category::SeismicIntensity => "震度速報"@,
        Category::Tsunami => "津波情報"@,
        Category::Volcano => "火山情報"@,
        Category::Weather => "気象情報"@,
        Category::Test => "試験放送"@,
        Category::Other => "その他"@,
    }
}

/// Display priority (higher = more urgent).
pub open spec fn priority_of(c: Category) -> u8 {
    match c {
        Category::CivilProtection => 15,
        Category::Eew => 13,
        Category::Tsunami => 11,
        Category::Volcano => 9,
        Category::EmergencyContact => 5,
        Category::Test => 2,
        Category::SeismicIntensity => 1,
        Category::Earthquake | Category::Weather | Category::Other => 0,
    }
}

/// The category named by an `alert_sub_type` text (first matching keyword
/// group wins, in this order).
pub open spec fn category_of_sub_type(s: Seq<char>) -> Category {
    let s = trim(s);
    if seq_contains(s, "国民保護"@) || seq_contains(s, "弾道ミサイル"@) || seq_contains(s, "武力攻撃"@)
        || seq_contains(s, "ゲリラ"@) || seq_contains(s, "航空攻撃"@) || seq_contains(s, "テロ"@) {
        Category::CivilProtection
    } else if seq_contains(s, "緊急連絡"@) {
        Category::EmergencyContact
    } else if seq_contains(s, "緊急地震速報"@) {
        Category::Eew
    } else if seq_contains(s, "震度速報"@) {
        Category::SeismicIntensity
    } else if seq_contains(s, "地震"@) || seq_contains(s, "震源"@) || seq_contains(s, "震度"@) {
        Category::Earthquake
    } else if seq_contains(s, "津波"@) {
        Category::Tsunami
    } else if seq_contains(s, "噴火"@) || seq_contains(s, "火山"@) {
        Category::Volcano
    } else if seq_contains(s, "気象"@) {
        Category::Weather
    } else if seq_contains(s, "試験"@) || seq_contains(s, "訓練"@) || seq_contains(s, "テスト"@) {
        Category::Test
    } else {
        Category::Other
    }
}

/// The default category of a bare telegram code.
pub open spec fn category_of_type(t: AlertType) -> Category {
    match t {
        AlertType::Jalt => Category::CivilProtection,
        AlertType::Ifda => Category::EmergencyContact,
        AlertType::Eprq => Category::Eew,
        AlertType::Ioeq => Category::Earthquake,
        AlertType::Issw => Category::Tsunami,
        AlertType::Volc => Category::Volcano,
        AlertType::Wrma => Category::Weather,
        AlertType::Unknown => Category::Other,
    }
}

/// The standby lamp a category lights, if any.
pub open spec fn lamp_of(c: Category) -> Option<LampGroup> {
    match c {
        Category::CivilProtection => Some(LampGroup::CivilProtection),
        Category::Eew | Category::Earthquake | Category::SeismicIntensity => Some(
            LampGroup::Earthquake,
        ),
        Category::Tsunami => Some(LampGroup::Tsunami),
        Category::Volcano => Some(LampGroup::Volcano),
        _ => None,
    }
}

impl Category {
    /// 情報種別名.
    pub fn label(self) -> (res: &'static str)
        ensures
            res@ == category_label(self),
    {
        match self {
            Category::CivilProtection => "国民保護情報",
            Category::EmergencyContact => "緊急連絡",
            Category::Eew => "緊急地震速報",
            Category::Earthquake => "地震情報",
            Category::SeismicIntensity => "震度速報",
            Category::Tsunami => "津波情報",
            Category::Volcano => "火山情報",
            Category::Weather => "気象情報",
            Category::Test => "試験放送",
            Category::Other => "その他",
        }
    }

    /// Display priority (higher = more urgent): 国民保護 15 / 緊急地震速報 13 /
    /// 津波 11 / 火山 9 / 緊急連絡 5 / 試験 2 / 震度速報 1 / 地震・気象・その他 0.
    pub fn priority(self) -> (res: u8)
        ensures
            res == priority_of(self),
    {
        match self {
            Category::CivilProtection => 15,
            Category::Eew => 13,
            Category::Tsunami => 11,
            Category::Volcano => 9,
            Category::EmergencyContact => 5,
            Category::Test => 2,
            Category::SeismicIntensity => 1,
            Category::Earthquake | Category::Weather | Category::Other => 0,
        }
    }

    /// Map an `alert_sub_type` string to a category.
    pub fn from_sub_type(s: &str) -> (res: Category)
        ensures
            res == category_of_sub_type(s@),
    {
        let t = trimmed(s);
        let s = t.as_str();
        if str_contains(s, "国民保護") || str_contains(s, "弾道ミサイル") || str_contains(s, "武力攻撃")
            || str_contains(s, "ゲリラ") || str_contains(s, "航空攻撃") || str_contains(s, "テロ") {
            Category::CivilProtection
        } else if str_contains(s, "緊急連絡") {
            Category::EmergencyContact
        } else if str_contains(s, "緊急地震速報") {
            Category::Eew
        } else if str_contains(s, "震度速報") {
            Category::SeismicIntensity
        } else if str_contains(s, "地震") || str_contains(s, "震源") || str_contains(s, "震度") {
            Category::Earthquake
        } else if str_contains(s, "津波") {
            Category::Tsunami
        } else if str_contains(s, "噴火") || str_contains(s, "火山") {
            Category::Volcano
        } else if str_contains(s, "気象") {
            Category::Weather
        } else if str_contains(s, "試験") || str_contains(s, "訓練") || str_contains(s, "テスト") {
            Category::Test
        } else {
            Category::Other
        }
    }

    /// The default category for a bare telegram code.
    pub fn from_alert_type(t: AlertType) -> (res: Category)
        ensures
            res == category_of_type(t),
    {
        match t {
            AlertType::Jalt => Category::CivilProtection,
            AlertType::Ifda => Category::EmergencyContact,
            AlertType::Eprq => Category::Eew,
            AlertType::Ioeq => Category::Earthquake,
            AlertType::Issw => Category::Tsunami,
            AlertType::Volc => Category::Volcano,
            AlertType::Wrma => Category::Weather,
            AlertType::Unknown => Category::Other,
        }
    }

    /// The standby "category lamp" (国民保護 / 地震 / 津波 / 火山) this
    /// category lights, if any.
    pub fn lamp_group(self) -> (res: Option<LampGroup>)
        ensures
            res == lamp_of(self),
    {
        match self {
            Category::CivilProtection => Some(LampGroup::CivilProtection),
            Category::Eew | Category::Earthquake | Category::SeismicIntensity => Some(
                LampGroup::Earthquake,
            ),
            Category::Tsunami => Some(LampGroup::Tsunami),
            Category::Volcano => Some(LampGroup::Volcano),
            _ => None,
        }
    }
}

/// The four headline information groups shown as lamps on the standby screen.
#[derive(Clone, Copy, PartialEq, Eq, Debug, Structural)]
pub enum LampGroup {
    CivilProtection,
    Earthquake,
    Tsunami,
    Volcano,
}

impl LampGroup {
    /// The lamp's caption.
    pub fn label(self) -> (res: &'static str)
        ensures
            res@ == match self {
                LampGroup::CivilProtection => "国民保護に関する情報"@,
                LampGroup::Earthquake => "地震情報"@,
                LampGroup::Tsunami => "津波情報"@,
                LampGroup::Volcano => "火山情報"@,
            },
    {
        match self {
            LampGroup::CivilProtection => "国民保護に関する情報",
            LampGroup::Earthquake => "地震情報",
            LampGroup::Tsunami => "津波情報",
            LampGroup::Volcano => "火山情報",
        }
    }

    /// The lamps in their order on the standby screen.
    pub const ALL: [LampGroup; 4] = [
        LampGroup::CivilProtection,
        LampGroup::Earthquake,
        LampGroup::Tsunami,
        LampGroup::Volcano,
    ];
}

/// The channel a packet arrived on (衛星系 / 地上系).
#[derive(Clone, Copy, PartialEq, Eq, Debug, Default, Structural)]
pub enum RxChannel {
    Satellite,
    Terrestrial,
    #[default]
    Unknown,
}

/// The channel a source text names.
pub open spec fn channel_of(s: Seq<char>) -> RxChannel {
    let s = trim(s);
    if seq_contains(s, "衛星"@) || eq_ignore_ascii_case(s, "satellite"@) || eq_ignore_ascii_case(
        s,
        "sat"@,
    ) {
        RxChannel::Satellite
    } else if seq_contains(s, "地上"@) || eq_ignore_ascii_case(s, "terrestrial"@)
        || eq_ignore_ascii_case(s, "ground"@) {
        RxChannel::Terrestrial
    } else {
        RxChannel::Unknown
    }
}

impl RxChannel {
    /// The channel's name (— when unknown).
    pub fn label(self) -> (res: &'static str)
        ensures
            res@ == match self {
                RxChannel::Satellite => "衛星系"@,
                RxChannel::Terrestrial => "地上系"@,
                RxChannel::Unknown => "—"@,
            },
    {
        match self {
            RxChannel::Satellite => "衛星系",
            RxChannel::Terrestrial => "地上系",
            RxChannel::Unknown => "—",
        }
    }

    /// The channel a source text names (衛星 / satellite / sat, 地上 /
    /// terrestrial / ground).
    pub fn from_str(s: &str) -> (res: RxChannel)
        ensures
            res == channel_of(s@),
    {
        let t = trimmed(s);
        let v = chars_of(t.as_str());
        if str_contains(t.as_str(), "衛星") || eq_ignore_case(&v, "satellite") || eq_ignore_case(
            &v,
            "sat",
        ) {
            RxChannel::Satellite
        } else if str_contains(t.as_str(), "地上") || eq_ignore_case(&v, "terrestrial")
            || eq_ignore_case(&v, "ground") {
            RxChannel::Terrestrial
        } else {
            RxChannel::Unknown
        }
    }
}

/// Warning severity, ordered: Clear < Advisory < Warning < Emergency. Used
/// directly for weather and as the unified display level for every category.
#[derive(Clone, Copy, PartialEq, Eq, PartialOrd, Ord, Debug, Default, Structural)]
pub enum Severity {
    #[default]
    Clear,
    Advisory,
    Warning,
    Emergency,
}

/// The rank of a severity in its order (0 for Clear up to 3 for Emergency).
pub open spec fn level(s: Severity) -> u8 {
    match s {
        Severity::Clear => 0,
        Severity::Advisory => 1,
        Severity::Warning => 2,
        Severity::Emergency => 3,
    }
}

/// The severity a warning name's suffix implies (特別警報 before 警報).
pub open spec fn severity_of_name(name: Seq<char>) -> Severity {
    if seq_ends_with(name, "特別警報"@) {
        Severity::Emergency
    } else if seq_ends_with(name, "警報"@) {
        Severity::Warning
    } else if seq_ends_with(name, "注意報"@) {
        Severity::Advisory
    } else {
        Severity::Clear
    }
}

/// The greater of two severities.
pub open spec fn max_severity(a: Severity, b: Severity) -> Severity {
    if level(a) >= level(b) {
        a
    } else {
        b
    }
}

impl Severity {
    /// Label as it appears in the mailbox / tags. `Clear` means a cancellation.
    pub fn label(self) -> (res: &'static str)
        ensures
            res@ == match self {
                Severity::Emergency => "特別警報"@,
                Severity::Warning => "警報"@,
                Severity::Advisory => "注意報"@,
                Severity::Clear => "解除"@,
            },
    {
        match self {
            Severity::Emergency => "特別警報",
            Severity::Warning => "警報",
            Severity::Advisory => "注意報",
            Severity::Clear => "解除",
        }
    }

    /// Severity implied by a warning name's suffix (特別警報 is tested first).
    pub fn of_name(name: &str) -> (res: Severity)
        ensures
            res == severity_of_name(name@),
    {
        if str_ends_with(name, "特別警報") {
            Severity::Emergency
        } else if str_ends_with(name, "警報") {
            Severity::Warning
        } else if str_ends_with(name, "注意報") {
            Severity::Advisory
        } else {
            Severity::Clear
        }
    }

    /// The rank of this severity in its order.
    pub fn rank(self) -> (res: u8)
        ensures
            res == level(self),
    {
        match self {
            Severity::Clear => 0,
            Severity::Advisory => 1,
            Severity::Warning => 2,
            Severity::Emergency => 3,
        }
    }
}

/// One warning kind in force for an area, e.g. 大雨警報 / 発表.
#[derive(Clone, Debug)]
pub struct AlertKind {
    pub name: String,
    pub status: String,
    pub severity: Severity,
}

/// A warning kind as plain values: (name, status, severity).
pub type KindView = (Seq<char>, Seq<char>, Severity);

impl View for AlertKind {
    type V = KindView;

    open spec fn view(&self) -> KindView {
        (self.name@, self.status@, self.severity)
    }
}

/// The views of a list of warning kinds.
pub open spec fn kind_views(v: Seq<AlertKind>) -> Seq<KindView> {
    v.map_values(|k: AlertKind| k@)
}

/// The views of a list of strings.
pub open spec fn string_views(v: Seq<String>) -> Seq<Seq<char>> {
    v.map_values(|s: String| s@)
}

/// An alert channel as plain values.
#[verifier::ext_equal]
pub struct ChannelView {
    pub key: Seq<char>,
    pub alert_type: AlertType,
    pub category: Category,
    pub allowed: bool,
    pub title: Seq<char>,
    pub head_title: Seq<char>,
    pub area_name: Seq<char>,
    pub sub_type: Seq<char>,
    pub info_type: Seq<char>,
    pub headline: Seq<char>,
    pub report_time: Seq<char>,
    pub packet_time: Seq<char>,
    pub rx_time_ms: i64,
    pub channel: RxChannel,
    pub severity: Severity,
    pub kinds: Seq<KindView>,
    pub areas: Seq<Seq<char>>,
    pub xml: Seq<char>,
}

/// The state of one warning "channel", keyed by category + prefectural
/// forecast area. A newer report supersedes the previous one.
#[derive(Clone, Debug)]
pub struct AlertChannel {
    pub key: String,
    pub alert_type: AlertType,
    pub category: Category,
    /// Whether the display settings let this telegram reach the screen.
    pub allowed: bool,
    pub title: String,
    pub head_title: String,
    pub area_name: String,
    /// The raw `alert_sub_type` text.
    pub sub_type: String,
    /// 発表 / 継続 / 解除 / 訓練
    pub info_type: String,
    pub headline: String,
    pub report_time: String,
    pub packet_time: String,
    pub rx_time_ms: i64,
    pub channel: RxChannel,
    /// Weather sub-level (特別警報/警報/注意報); otherwise usually Clear.
    pub severity: Severity,
    pub kinds: Vec<AlertKind>,
    pub areas: Vec<String>,
    pub xml: String,
}

impl View for AlertChannel {
    type V = ChannelView;

    open spec fn view(&self) -> ChannelView {
        ChannelView {
            key: self.key@,
            alert_type: self.alert_type,
            category: self.category,
            allowed: self.allowed,
            title: self.title@,
            head_title: self.head_title@,
            area_name: self.area_name@,
            sub_type: self.sub_type@,
            info_type: self.info_type@,
            headline: self.headline@,
            report_time: self.report_time@,
            packet_time: self.packet_time@,
            rx_time_ms: self.rx_time_ms,
            channel: self.channel,
            severity: self.severity,
            kinds: kind_views(self.kinds@),
            areas: string_views(self.areas@),
            xml: self.xml@,
        }
    }
}

/// `info_type` marks a report as an all-clear / cancellation.
pub open spec fn is_cancel_info(info: Seq<char>) -> bool {
    seq_contains(info, "解除"@) || seq_contains(info, "取消"@)
}

/// The unified display level of a channel.
pub open spec fn effective_of(c: AlertChannel) -> Severity {
    if is_cancel_info(c.info_type@) {
        Severity::Clear
    } else {
        match c.category {
            Category::CivilProtection => Severity::Emergency,
            Category::Eew | Category::Tsunami | Category::Volcano => Severity::Warning,
            Category::EmergencyContact => Severity::Warning,
            Category::Weather => c.severity,
            Category::Earthquake | Category::SeismicIntensity => Severity::Advisory,
            Category::Test => Severity::Advisory,
            Category::Other => c.severity,
        }
    }
}

/// The channel takes over the whole screen: allowed and at least 警報級.
pub open spec fn fullscreen_of(c: AlertChannel) -> bool {
    c.allowed && level(effective_of(c)) >= 2
}

/// The heading of a channel: its area name, else its head title.
pub open spec fn area_label_of(c: AlertChannel) -> Seq<char> {
    if c.area_name@.len() > 0 {
        c.area_name@
    } else {
        c.head_title@
    }
}

impl AlertChannel {
    /// True if `info_type` marks this report as an all-clear / cancellation.
    pub fn is_cancel(&self) -> (res: bool)
        ensures
            res == is_cancel_info(self.info_type@),
    {
        str_contains(self.info_type.as_str(), "解除") || str_contains(self.info_type.as_str(), "取消")
    }

    /// The unified display level across every category: a cancellation is
    /// Clear; weather (and uncategorised telegrams) keep their graded severity;
    /// the other categories map to a fixed level.
    pub fn effective_severity(&self) -> (res: Severity)
        ensures
            res == effective_of(*self),
    {
        if self.is_cancel() {
            return Severity::Clear;
        }
        match self.category {
            Category::CivilProtection => Severity::Emergency,
            Category::Eew | Category::Tsunami | Category::Volcano => Severity::Warning,
            Category::EmergencyContact => Severity::Warning,
            Category::Weather => self.severity,
            Category::Earthquake | Category::SeismicIntensity => Severity::Advisory,
            Category::Test => Severity::Advisory,
            Category::Other => self.severity,
        }
    }

    /// The whole screen is taken over for 警報級以上 of an allowed telegram.
    pub fn is_fullscreen(&self) -> (res: bool)
        ensures
            res == fullscreen_of(*self),
    {
        self.allowed && self.effective_severity().rank() >= 2
    }

    /// Heading shown on the alert / lists.
    pub fn area_label(&self) -> (res: &str)
        ensures
            res@ == area_label_of(*self),
    {
        if !self.area_name.as_str().is_empty() {
            self.area_name.as_str()
        } else {
            self.head_title.as_str()
        }
    }
}

impl Default for AlertChannel {
    fn default() -> (res: Self)
        ensures
            res.key@.len() == 0 && res.title@.len() == 0 && res.head_title@.len() == 0
                && res.area_name@.len() == 0 && res.sub_type@.len() == 0 && res.info_type@.len()
                == 0 && res.headline@.len() == 0 && res.report_time@.len() == 0
                && res.packet_time@.len() == 0 && res.xml@.len() == 0,
            res.alert_type == AlertType::Unknown && res.category == Category::Other
                && !res.allowed && res.rx_time_ms == 0 && res.channel == RxChannel::Unknown
                && res.severity == Severity::Clear && res.kinds@.len() == 0 && res.areas@.len()
                == 0,
    {
        AlertChannel {
            key: String::new(),
            alert_type: AlertType::Unknown,
            category: Category::Other,
            allowed: false,
            title: String::new(),
            head_title: String::new(),
            area_name: String::new(),
            sub_type: String::new(),
            info_type: String::new(),
            headline: String::new(),
            report_time: String::new(),
            packet_time: String::new(),
            rx_time_ms: 0,
            channel: RxChannel::Unknown,
            severity: Severity::Clear,
            kinds: Vec::new(),
            areas: Vec::new(),
            xml: String::new(),
        }
    }
}

/// One received telegram as it appears in the 緊急情報一覧 (read/unread
/// mailbox).
#[derive(Clone, Debug)]
pub struct InboxItem {
    pub id: u64,
    pub rx_time_ms: i64,
    pub packet_time: String,
    pub alert_type: AlertType,
    pub category: Category,
    pub allowed: bool,
    pub channel: RxChannel,
    pub severity: Severity,
    pub info_type: String,
    pub title: String,
    pub head_title: String,
    pub area_name: String,
    pub kinds: Vec<String>,
    pub headline: String,
    pub report_time: String,
    pub read: bool,
    pub xml: String,
}

/// A mailbox item as plain values.
#[verifier::ext_equal]
pub struct InboxView {
    pub id: u64,
    pub rx_time_ms: i64,
    pub packet_time: Seq<char>,
    pub alert_type: AlertType,
    pub category: Category,
    pub allowed: bool,
    pub channel: RxChannel,
    pub severity: Severity,
    pub info_type: Seq<char>,
    pub title: Seq<char>,
    pub head_title: Seq<char>,
    pub area_name: Seq<char>,
    pub kinds: Seq<Seq<char>>,
    pub headline: Seq<char>,
    pub report_time: Seq<char>,
    pub read: bool,
    pub xml: Seq<char>,
}

impl View for InboxItem {
    type V = InboxView;

    open spec fn view(&self) -> InboxView {
        InboxView {
            id: self.id,
            rx_time_ms: self.rx_time_ms,
            packet_time: self.packet_time@,
            alert_type: self.alert_type,
            category: self.category,
            allowed: self.allowed,
            channel: self.channel,
            severity: self.severity,
            info_type: self.info_type@,
            title: self.title@,
            head_title: self.head_title@,
            area_name: self.area_name@,
            kinds: string_views(self.kinds@),
            headline: self.headline@,
            report_time: self.report_time@,
            read: self.read,
            xml: self.xml@,
        }
    }
}

impl Default for InboxItem {
    fn default() -> (res: Self)
        ensures
            res.id == 0 && res.rx_time_ms == 0 && res.packet_time@.len() == 0
                && res.alert_type == AlertType::Unknown && res.category == Category::Other
                && !res.allowed && res.channel == RxChannel::Unknown && res.severity
                == Severity::Clear && res.info_type@.len() == 0 && res.title@.len() == 0
                && res.head_title@.len() == 0 && res.area_name@.len() == 0 && res.kinds@.len()
                == 0 && res.headline@.len() == 0 && res.report_time@.len() == 0 && !res.read
                && res.xml@.len() == 0,
    {
        InboxItem {
            id: 0,
            rx_time_ms: 0,
            packet_time: String::new(),
            alert_type: AlertType::Unknown,
            category: Category::Other,
            allowed: false,
            channel: RxChannel::Unknown,
            severity: Severity::Clear,
            info_type: String::new(),
            title: String::new(),
            head_title: String::new(),
            area_name: String::new(),
            kinds: Vec::new(),
            headline: String::new(),
            report_time: String::new(),
            read: false,
            xml: String::new(),
        }
    }
}

/// Health of the upstream link to the SDR# plugin.
#[derive(Clone, Debug)]
pub struct ReceiverStatus {
    pub connected: bool,
    pub source: String,
    pub last_line_ms: i64,
    pub total_lines: u64,
}

impl Default for ReceiverStatus {
    fn default() -> (res: Self)
        ensures
            !res.connected && res.source@.len() == 0 && res.last_line_ms == 0 && res.total_lines
                == 0,
    {
        ReceiverStatus { connected: false, source: String::new(), last_line_ms: 0, total_lines: 0 }
    }
}


/// A code reads back as its telegram type: `AlertType::from_code` of
/// `code()` gives the type back (the `----` of an unknown code included).
pub proof fn law_code_round_trip(t: AlertType)
    ensures
        type_of_code(code_of(t)) == t,
{
    reveal_strlit("JALT");
    reveal_strlit("IFDA");
    reveal_strlit("EPRQ");
    reveal_strlit("IOEQ");
    reveal_strlit("ISSW");
    reveal_strlit("VOLC");
    reveal_strlit("WRMA");
    reveal_strlit("WRMX");
    reveal_strlit("----");
    let s = code_of(t);
    assert(s.len() == 4);
    assert(!is_ws(s[0]));
    assert(!is_ws(s[3]));
    assert(trim_start(s) == s);
    assert(s.drop_last().len() == 3);
    assert(trim_end(s) == s);
    assert(trim(s) == s);
    assert(upper_code(s[0]) == s[0] as u32);
    assert(upper_code(s[1]) == s[1] as u32);
    assert(upper_code(s[2]) == s[2] as u32);
    assert(upper_code(s[3]) == s[3] as u32);
    assert(upper_equals(s, s));
    assert(upper_equals(s, "JALT"@) ==> s[0] == 'J' && s[1] == 'A');
    assert(upper_equals(s, "IFDA"@) ==> s[0] == 'I' && s[1] == 'F');
    assert(upper_equals(s, "EPRQ"@) ==> s[0] == 'E');
    assert(upper_equals(s, "IOEQ"@) ==> s[0] == 'I' && s[1] == 'O');
    assert(upper_equals(s, "ISSW"@) ==> s[0] == 'I' && s[1] == 'S');
    assert(upper_equals(s, "VOLC"@) ==> s[0] == 'V');
    assert(upper_equals(s, "WRMA"@) ==> s[0] == 'W' && s[3] == 'A');
    assert(upper_equals(s, "WRMX"@) ==> s[0] == 'W' && s[3] == 'X');
}

/// A channel's label reads back as that channel.
pub proof fn law_channel_round_trip(c: RxChannel)
    ensures
        channel_of(match c {
            RxChannel::Satellite => "衛星系"@,
            RxChannel::Terrestrial => "地上系"@,
            RxChannel::Unknown => "—"@,
        }) == c,
{
    reveal_strlit("衛星系");
    reveal_strlit("地上系");
    reveal_strlit("—");
    reveal_strlit("衛星");
    reveal_strlit("地上");
    reveal_strlit("satellite");
    reveal_strlit("sat");
    reveal_strlit("terrestrial");
    reveal_strlit("ground");
    let s = match c {
        RxChannel::Satellite => "衛星系"@,
        RxChannel::Terrestrial => "地上系"@,
        RxChannel::Unknown => "—"@,
    };
    assert(!is_ws(s[0]));
    assert(!is_ws(s.last()));
    assert(trim_start(s) == s);
    assert(trim_end(s) == s);
    assert(trim(s) == s);
    match c {
        RxChannel::Satellite => {
            assert(s.subrange(0, 2) =~= "衛星"@);
            assert(occurs_at(s, "衛星"@, 0));
        },
        RxChannel::Terrestrial => {
            assert(!seq_contains(s, "衛星"@)) by {
                assert forall|i: int| !occurs_at(s, "衛星"@, i) by {
                    if 0 <= i && i + 2 <= s.len() {
                        assert(s.subrange(i, i + 2)[0] == s[i]);
                    }
                }
            }
            assert(s.subrange(0, 2) =~= "地上"@);
            assert(occurs_at(s, "地上"@, 0));
        },
        RxChannel::Unknown => {
            assert(!seq_contains(s, "衛星"@));
            assert(!seq_contains(s, "地上"@));
        },
    }
}

/// Each category's 情報種別名 reads back as that category.
pub proof fn law_category_label_round_trip(c: Category)
    ensures
        category_of_sub_type(category_label(c)) == c,
{
    reveal_strlit("その他");
    reveal_strlit("ゲリラ");
    reveal_strlit("テスト");
    reveal_strlit("テロ");
    reveal_strlit("噴火");
    reveal_strlit("国民保護");
    reveal_strlit("国民保護情報");
    reveal_strlit("地震");
    reveal_strlit("地震情報");
    reveal_strlit("弾道ミサイル");
    reveal_strlit("武力攻撃");
    reveal_strlit("気象");
    reveal_strlit("気象情報");
    reveal_strlit("津波");
    reveal_strlit("津波情報");
    reveal_strlit("火山");
    reveal_strlit("火山情報");
    reveal_strlit("緊急地震速報");
    reveal_strlit("緊急連絡");
    reveal_strlit("航空攻撃");
    reveal_strlit("訓練");
    reveal_strlit("試験");
    reveal_strlit("試験放送");
    reveal_strlit("震度");
    reveal_strlit("震度速報");
    reveal_strlit("震源");
    let s = category_label(c);
    assert(!is_ws(s[0]));
    assert(!is_ws(s.last()));
    assert(trim_start(s) == s);
    assert(trim_end(s) == s);
    assert(trim(s) == s);
    match c {
        Category::CivilProtection => {
            assert(s.subrange(0, 4) =~= "国民保護"@);
            assert(occurs_at(s, "国民保護"@, 0));
        },
        Category::EmergencyContact => {
            lemma_first_char_absent(s, "国民保護"@);
            lemma_first_char_absent(s, "弾道ミサイル"@);
            lemma_first_char_absent(s, "武力攻撃"@);
            lemma_first_char_absent(s, "ゲリラ"@);
            lemma_first_char_absent(s, "航空攻撃"@);
            lemma_first_char_absent(s, "テロ"@);
            assert(s.subrange(0, 4) =~= "緊急連絡"@);
            assert(occurs_at(s, "緊急連絡"@, 0));
        },
        Category::Eew => {
            lemma_first_char_absent(s, "国民保護"@);
            lemma_first_char_absent(s, "弾道ミサイル"@);
            lemma_first_char_absent(s, "武力攻撃"@);
            lemma_first_char_absent(s, "ゲリラ"@);
            lemma_first_char_absent(s, "航空攻撃"@);
            lemma_first_char_absent(s, "テロ"@);
            assert(!seq_contains(s, "緊急連絡"@)) by {
                assert forall|i: int| !occurs_at(s, "緊急連絡"@, i) by {
                    if 0 <= i && i + 4 <= s.len() {
                        assert(s.subrange(i, i + 4)[0] == s[i + 0]);
                        assert(s.subrange(i, i + 4)[1] == s[i + 1]);
                        assert(s.subrange(i, i + 4)[2] == s[i + 2]);
                        assert(s.subrange(i, i + 4)[3] == s[i + 3]);
                    }
                }
            }
            assert(s.subrange(0, 6) =~= "緊急地震速報"@);
            assert(occurs_at(s, "緊急地震速報"@, 0));
        },
        Category::Earthquake => {
            lemma_first_char_absent(s, "国民保護"@);
            lemma_first_char_absent(s, "弾道ミサイル"@);
            lemma_first_char_absent(s, "武力攻撃"@);
            lemma_first_char_absent(s, "ゲリラ"@);
            lemma_first_char_absent(s, "航空攻撃"@);
            lemma_first_char_absent(s, "テロ"@);
            lemma_first_char_absent(s, "緊急連絡"@);
            lemma_first_char_absent(s, "緊急地震速報"@);
            assert(!seq_contains(s, "震度速報"@)) by {
                assert forall|i: int| !occurs_at(s, "震度速報"@, i) by {
                    if 0 <= i && i + 4 <= s.len() {
                        assert(s.subrange(i, i + 4)[0] == s[i + 0]);
                        assert(s.subrange(i, i + 4)[1] == s[i + 1]);
                        assert(s.subrange(i, i + 4)[2] == s[i + 2]);
                        assert(s.subrange(i, i + 4)[3] == s[i + 3]);
                    }
                }
            }
            assert(s.subrange(0, 2) =~= "地震"@);
            assert(occurs_at(s, "地震"@, 0));
        },
        Category::SeismicIntensity => {
            lemma_first_char_absent(s, "国民保護"@);
            lemma_first_char_absent(s, "弾道ミサイル"@);
            lemma_first_char_absent(s, "武力攻撃"@);
            lemma_first_char_absent(s, "ゲリラ"@);
            lemma_first_char_absent(s, "航空攻撃"@);
            lemma_first_char_absent(s, "テロ"@);
            lemma_first_char_absent(s, "緊急連絡"@);
            lemma_first_char_absent(s, "緊急地震速報"@);
            assert(s.subrange(0, 4) =~= "震度速報"@);
            assert(occurs_at(s, "震度速報"@, 0));
        },
        Category::Tsunami => {
            lemma_first_char_absent(s, "国民保護"@);
            lemma_first_char_absent(s, "弾道ミサイル"@);
            lemma_first_char_absent(s, "武力攻撃"@);
            lemma_first_char_absent(s, "ゲリラ"@);
            lemma_first_char_absent(s, "航空攻撃"@);
            lemma_first_char_absent(s, "テロ"@);
            lemma_first_char_absent(s, "緊急連絡"@);
            lemma_first_char_absent(s, "緊急地震速報"@);
            lemma_first_char_absent(s, "震度速報"@);
            lemma_first_char_absent(s, "地震"@);
            lemma_first_char_absent(s, "震源"@);
            lemma_first_char_absent(s, "震度"@);
            assert(s.subrange(0, 2) =~= "津波"@);
            assert(occurs_at(s, "津波"@, 0));
        },
        Category::Volcano => {
            lemma_first_char_absent(s, "国民保護"@);
            lemma_first_char_absent(s, "弾道ミサイル"@);
            lemma_first_char_absent(s, "武力攻撃"@);
            lemma_first_char_absent(s, "ゲリラ"@);
            lemma_first_char_absent(s, "航空攻撃"@);
            lemma_first_char_absent(s, "テロ"@);
            lemma_first_char_absent(s, "緊急連絡"@);
            lemma_first_char_absent(s, "緊急地震速報"@);
            lemma_first_char_absent(s, "震度速報"@);
            lemma_first_char_absent(s, "地震"@);
            lemma_first_char_absent(s, "震源"@);
            lemma_first_char_absent(s, "震度"@);
            lemma_first_char_absent(s, "津波"@);
            assert(s.subrange(0, 2) =~= "火山"@);
            assert(occurs_at(s, "火山"@, 0));
        },
        Category::Weather => {
            lemma_first_char_absent(s, "国民保護"@);
            lemma_first_char_absent(s, "弾道ミサイル"@);
            lemma_first_char_absent(s, "武力攻撃"@);
            lemma_first_char_absent(s, "ゲリラ"@);
            lemma_first_char_absent(s, "航空攻撃"@);
            lemma_first_char_absent(s, "テロ"@);
            lemma_first_char_absent(s, "緊急連絡"@);
            lemma_first_char_absent(s, "緊急地震速報"@);
            lemma_first_char_absent(s, "震度速報"@);
            lemma_first_char_absent(s, "地震"@);
            lemma_first_char_absent(s, "震源"@);
            lemma_first_char_absent(s, "震度"@);
            lemma_first_char_absent(s, "津波"@);
            lemma_first_char_absent(s, "噴火"@);
            lemma_first_char_absent(s, "火山"@);
            assert(s.subrange(0, 2) =~= "気象"@);
            assert(occurs_at(s, "気象"@, 0));
        },
        Category::Test => {
            lemma_first_char_absent(s, "国民保護"@);
            lemma_first_char_absent(s, "弾道ミサイル"@);
            lemma_first_char_absent(s, "武力攻撃"@);
            lemma_first_char_absent(s, "ゲリラ"@);
            lemma_first_char_absent(s, "航空攻撃"@);
            lemma_first_char_absent(s, "テロ"@);
            lemma_first_char_absent(s, "緊急連絡"@);
            lemma_first_char_absent(s, "緊急地震速報"@);
            lemma_first_char_absent(s, "震度速報"@);
            lemma_first_char_absent(s, "地震"@);
            lemma_first_char_absent(s, "震源"@);
            lemma_first_char_absent(s, "震度"@);
            lemma_first_char_absent(s, "津波"@);
            lemma_first_char_absent(s, "噴火"@);
            lemma_first_char_absent(s, "火山"@);
            lemma_first_char_absent(s, "気象"@);
            assert(s.subrange(0, 2) =~= "試験"@);
            assert(occurs_at(s, "試験"@, 0));
        },
        Category::Other => {
            lemma_first_char_absent(s, "国民保護"@);
            lemma_first_char_absent(s, "弾道ミサイル"@);
            lemma_first_char_absent(s, "武力攻撃"@);
            lemma_first_char_absent(s, "ゲリラ"@);
            lemma_first_char_absent(s, "航空攻撃"@);
            lemma_first_char_absent(s, "テロ"@);
            lemma_first_char_absent(s, "緊急連絡"@);
            lemma_first_char_absent(s, "緊急地震速報"@);
            lemma_first_char_absent(s, "震度速報"@);
            lemma_first_char_absent(s, "地震"@);
            lemma_first_char_absent(s, "震源"@);
            lemma_first_char_absent(s, "震度"@);
            lemma_first_char_absent(s, "津波"@);
            lemma_first_char_absent(s, "噴火"@);
            lemma_first_char_absent(s, "火山"@);
            lemma_first_char_absent(s, "気象"@);
            lemma_first_char_absent(s, "試験"@);
            lemma_first_char_absent(s, "訓練"@);
            lemma_first_char_absent(s, "テスト"@);
        },
    }
}

/// A needle whose first character never occurs in `hay` does not occur in it.
proof fn lemma_first_char_absent(hay: Seq<char>, needle: Seq<char>)
    requires
        needle.len() > 0,
        forall|i: int| 0 <= i < hay.len() ==> hay[i] != needle[0],
    ensures
        !seq_contains(hay, needle),
{
    assert forall|i: int| !occurs_at(hay, needle, i) by {
        if 0 <= i && i + needle.len() <= hay.len() {
            assert(hay.subrange(i, i + needle.len())[0] == hay[i]);
        }
    }
}


/// A code reads back as its type in any ASCII case and with any whitespace
/// around it (` jalt ` names JALT).
pub proof fn law_code_any_case_padded(t: AlertType, s: Seq<char>, pre: Seq<char>, post: Seq<char>)
    requires
        eq_ignore_ascii_case(s, code_of(t)),
        forall|i: int| 0 <= i < pre.len() ==> is_ws(#[trigger] pre[i]),
        forall|i: int| 0 <= i < post.len() ==> is_ws(#[trigger] post[i]),
    ensures
        type_of_code(pre + s + post) == t,
{
    reveal_strlit("JALT");
    reveal_strlit("IFDA");
    reveal_strlit("EPRQ");
    reveal_strlit("IOEQ");
    reveal_strlit("ISSW");
    reveal_strlit("VOLC");
    reveal_strlit("WRMA");
    reveal_strlit("WRMX");
    reveal_strlit("----");
    let code = code_of(t);
    assert(code.len() == 4);
    assert(lower_code(s[0]) == lower_code(code[0]));
    assert(lower_code(s[3]) == lower_code(code[3]));
    assert(!is_ws(s[0]));
    assert(!is_ws(s[3]));
    assert(pre + s + post =~= pre + (s + post));
    assert((s + post)[0] == s[0]);
    lemma_trim_ws_prefix(pre, s + post);
    lemma_trim_ws_suffix(s, post);
    assert(trim(pre + s + post) == s);
    assert forall|i: int| 0 <= i < s.len() implies upper_code(#[trigger] s[i]) == upper_code(code[i]) by {
        assert(lower_code(s[i]) == lower_code(code[i]));
    }
    lemma_upper_equals_alike(s, code, "JALT"@);
    lemma_upper_equals_alike(s, code, "IFDA"@);
    lemma_upper_equals_alike(s, code, "EPRQ"@);
    lemma_upper_equals_alike(s, code, "IOEQ"@);
    lemma_upper_equals_alike(s, code, "ISSW"@);
    lemma_upper_equals_alike(s, code, "VOLC"@);
    lemma_upper_equals_alike(s, code, "WRMA"@);
    lemma_upper_equals_alike(s, code, "WRMX"@);
    law_code_round_trip(t);
    assert(trim(code) == code);
}

/// Leading whitespace goes: `pre + x` trims at the start to `x` when `x`
/// starts with a non-space.
proof fn lemma_trim_ws_prefix(pre: Seq<char>, x: Seq<char>)
    requires
        forall|i: int| 0 <= i < pre.len() ==> is_ws(#[trigger] pre[i]),
        x.len() > 0,
        !is_ws(x[0]),
    ensures
        trim_start(pre + x) == x,
    decreases pre.len(),
{
    if pre.len() == 0 {
        assert(pre + x =~= x);
    } else {
        assert((pre + x)[0] == pre[0]);
        assert((pre + x).drop_first() =~= pre.drop_first() + x);
        lemma_trim_ws_prefix(pre.drop_first(), x);
    }
}

/// Trailing whitespace goes: `x + post` trims at the end to `x` when `x`
/// ends with a non-space.
proof fn lemma_trim_ws_suffix(x: Seq<char>, post: Seq<char>)
    requires
        forall|i: int| 0 <= i < post.len() ==> is_ws(#[trigger] post[i]),
        x.len() > 0,
        !is_ws(x.last()),
    ensures
        trim_end(x + post) == x,
    decreases post.len(),
{
    if post.len() == 0 {
        assert(x + post =~= x);
    } else {
        assert((x + post).last() == post.last());
        assert((x + post).drop_last() =~= x + post.drop_last());
        lemma_trim_ws_suffix(x, post.drop_last());
    }
}

/// Two texts with the same upper-cased letters compare alike with a literal.
proof fn lemma_upper_equals_alike(a: Seq<char>, b: Seq<char>, lit: Seq<char>)
    requires
        a.len() == b.len(),
        forall|i: int| 0 <= i < a.len() ==> upper_code(#[trigger] a[i]) == upper_code(b[i]),
    ensures
        upper_equals(a, lit) == upper_equals(b, lit),
{
    if upper_equals(a, lit) {
        assert forall|i: int| 0 <= i < b.len() implies upper_code(b[i]) == lit[i] as u32 by {
            assert(upper_code(a[i]) == upper_code(b[i]));
        }
    }
    if upper_equals(b, lit) {
        assert forall|i: int| 0 <= i < a.len() implies upper_code(a[i]) == lit[i] as u32 by {
            assert(upper_code(a[i]) == upper_code(b[i]));
        }
    }
}


/// Sub-types naming civil protection map to it: any 情報種別 text that
/// contains 国民保護, 弾道ミサイル, 武力攻撃, ゲリラ, 航空攻撃 or テロ is a
/// civil-protection report.
pub proof fn law_civil_protection_sub_types(s: Seq<char>)
    requires
        seq_contains(s, "国民保護"@) || seq_contains(s, "弾道ミサイル"@) || seq_contains(s, "武力攻撃"@)
            || seq_contains(s, "ゲリラ"@) || seq_contains(s, "航空攻撃"@) || seq_contains(s, "テロ"@),
    ensures
        category_of_sub_type(s) == Category::CivilProtection,
{
    reveal_strlit("国民保護");
    reveal_strlit("弾道ミサイル");
    reveal_strlit("武力攻撃");
    reveal_strlit("ゲリラ");
    reveal_strlit("航空攻撃");
    reveal_strlit("テロ");
    if seq_contains(s, "国民保護"@) {
        lemma_contains_trim(s, "国民保護"@);
    } else if seq_contains(s, "弾道ミサイル"@) {
        lemma_contains_trim(s, "弾道ミサイル"@);
    } else if seq_contains(s, "武力攻撃"@) {
        lemma_contains_trim(s, "武力攻撃"@);
    } else if seq_contains(s, "ゲリラ"@) {
        lemma_contains_trim(s, "ゲリラ"@);
    } else if seq_contains(s, "航空攻撃"@) {
        lemma_contains_trim(s, "航空攻撃"@);
    } else {
        lemma_contains_trim(s, "テロ"@);
    }
}

/// A 緊急連絡 that is no cancellation shows at 警報 level, and so takes over
/// the screen when its category may be shown.
pub proof fn law_emergency_contact_is_warning(c: AlertChannel)
    requires
        c.category == Category::EmergencyContact,
        !is_cancel_info(c.info_type@),
    ensures
        effective_of(c) == Severity::Warning,
        c.allowed ==> fullscreen_of(c),
{
}


/// The display level follows the category, not the telegram's own grade,
/// except for weather and other reports: a cancellation shows nothing;
/// otherwise civil protection is 特別警報 level, an earthquake early
/// warning, tsunami, volcano or 緊急連絡 report is 警報 level and takes over
/// the screen when shown, and earthquake, intensity and test reports are
/// 注意報 level, a banner.
pub proof fn law_display_levels(c: AlertChannel)
    ensures
        is_cancel_info(c.info_type@) ==> effective_of(c) == Severity::Clear && !fullscreen_of(c),
        !is_cancel_info(c.info_type@) && c.category == Category::CivilProtection ==> effective_of(c)
            == Severity::Emergency,
        !is_cancel_info(c.info_type@) && (c.category == Category::Eew || c.category
            == Category::Tsunami || c.category == Category::Volcano || c.category
            == Category::EmergencyContact) ==> effective_of(c) == Severity::Warning && (c.allowed
            ==> fullscreen_of(c)),
        !is_cancel_info(c.info_type@) && (c.category == Category::Earthquake || c.category
            == Category::SeismicIntensity || c.category == Category::Test) ==> effective_of(c)
            == Severity::Advisory && !fullscreen_of(c),
        !is_cancel_info(c.info_type@) && (c.category == Category::Weather || c.category
            == Category::Other) ==> effective_of(c) == c.severity,
{
}

} // verus!
