//! What the kiosk display and the management screens decide and show: the
//! login roles and the tabs they may open, the front-panel lamps, the mailbox
//! rows and their search, the alert and standby screens' texts, and the clock
//! and report-time texts. Drawing them is left to whichever front end runs.

use crate::classify::{join_strings, join_with, valid_datetime, wall_clock_ms};
use crate::model::{
    area_label_of, category_label, code_of, effective_of, level, string_views, AlertChannel,
    AlertKind, AlertType, Category, InboxItem, InboxView, RxChannel, Severity,
};
use crate::state::{
    alert_order, banner_order, derefs, fullscreen_list, id_index, kind_names, lemma_id_index,
    item_views, mode_of, AppState,
};
use crate::text::{
    concat2, dec_text, decimal, digit_char, parse_u64, seq_contains, str_contains, str_eq, trim,
    trimmed, u64_text,
};
use chrono::{Datelike, TimeZone, Timelike};
use vstd::prelude::*;

verus! {

/// Settings for the embedded web server, handed from the command line or
/// environment to the front end.
#[derive(Clone, Debug)]
pub struct WebInit {
    pub enabled: bool,
    pub port: u16,
    pub cloudflared: bool,
    pub cloudflared_bin: String,
}

/// The two top-level views.
#[derive(Clone, Copy, PartialEq, Eq, Debug, Structural)]
pub enum MainView {
    /// 表示 (kiosk)
    Display,
    /// 管理 (management screens)
    Admin,
}

/// Tabs of the management screen (Top / VirtualPanel / 手動発報 /
/// SystemStatus / Alerts / ExtInterfaceRules / SiteConnectTest /
/// broadcast-link status).
#[derive(Clone, Copy, PartialEq, Eq, Debug, Structural)]
pub enum AdminTab {
    Top,
    VirtualPanel,
    Manual,
    SystemStatus,
    Alerts,
    Rules,
    ConnectTest,
    Cwsd,
}

/// Login user types (a user-type code plus password).
#[derive(Clone, Copy, PartialEq, Eq, Debug, Structural)]
pub enum Role {
    /// システム管理者
    Sysadm,
    /// 運用管理者
    Operator,
    /// 一般利用者
    User,
}

/// The seed password of a role.
pub open spec fn seed_password(r: Role) -> Seq<char> {
    match r {
        Role::Sysadm => "jl10ad"@,
        Role::Operator => "opjl10"@,
        Role::User => "usjl10"@,
    }
}

/// The role may open the operator screens (受信機状態 / 同報系I/F).
pub open spec fn operator_role(r: Role) -> bool {
    r == Role::Sysadm || r == Role::Operator
}

impl Role {
    /// The role's name.
    pub fn label(self) -> (res: &'static str)
        ensures
            res@ == match self {
                Role::Sysadm => "システム管理者"@,
                Role::Operator => "運用管理者"@,
                Role::User => "一般利用者"@,
            },
    {
        match self {
            Role::Sysadm => "システム管理者",
            Role::Operator => "運用管理者",
            Role::User => "一般利用者",
        }
    }

    /// The seed password of this role.
    fn default_password(self) -> (res: &'static str)
        ensures
            res@ == seed_password(self),
    {
        match self {
            Role::Sysadm => "jl10ad",
            Role::Operator => "opjl10",
            Role::User => "usjl10",
        }
    }

    /// Whether `password` is this role's password.
    pub fn authenticate(self, password: &str) -> (res: bool)
        ensures
            res == (password@ == seed_password(self)),
    {
        str_eq(password, self.default_password())
    }

    /// Operator privileges (運用管理): sysadm and operator qualify.
    pub fn is_operator(self) -> (res: bool)
        ensures
            res == operator_role(self),
    {
        match self {
            Role::Sysadm | Role::Operator => true,
            Role::User => false,
        }
    }

    /// The roles in the order the login form offers them.
    pub const ALL: [Role; 3] = [Role::Sysadm, Role::Operator, Role::User];
}

/// Colour scheme of the management screens.
#[derive(Clone, Copy, PartialEq, Eq, Debug, Structural)]
pub enum ThemePref {
    System,
    Light,
    Dark,
}

/// Standby-screen styles.
#[derive(Clone, Copy, PartialEq, Eq, Debug, Structural)]
pub enum StandbyStyle {
    /// 時計＋異常なし
    Simple,
    /// J-ALERT ロゴ＋地球背景のオマージュ
    Pachimon,
    /// 実機の待機画面を忠実再現
    Real,
}

impl ThemePref {
    /// The theme selector's text.
    pub fn label(self) -> (res: &'static str)
        ensures
            res@ == match self {
                ThemePref::System => "テーマ:自動"@,
                ThemePref::Light => "テーマ:ライト"@,
                ThemePref::Dark => "テーマ:ダーク"@,
            },
    {
        match self {
            ThemePref::System => "テーマ:自動",
            ThemePref::Light => "テーマ:ライト",
            ThemePref::Dark => "テーマ:ダーク",
        }
    }
}

impl StandbyStyle {
    /// The style's name in the settings.
    pub fn label(self) -> (res: &'static str)
        ensures
            res@ == match self {
                StandbyStyle::Simple => "シンプル"@,
                StandbyStyle::Pachimon => "パチモン"@,
                StandbyStyle::Real => "リアル"@,
            },
    {
        match self {
            StandbyStyle::Simple => "シンプル",
            StandbyStyle::Pachimon => "パチモン",
            StandbyStyle::Real => "リアル",
        }
    }

    /// What the style shows, as the settings explain it.
    pub fn note(self) -> (res: &'static str)
        ensures
            res@ == match self {
                StandbyStyle::Simple => "時計＋「異常なし」のみのシンプル表示"@,
                StandbyStyle::Pachimon => "J-ALERT ロゴ＋地球背景のオマージュ"@,
                StandbyStyle::Real => "従来機の実画面を忠実再現（待機・アラート）"@,
            },
    {
        match self {
            StandbyStyle::Simple => "時計＋「異常なし」のみのシンプル表示",
            StandbyStyle::Pachimon => "J-ALERT ロゴ＋地球背景のオマージュ",
            StandbyStyle::Real => "従来機の実画面を忠実再現（待機・アラート）",
        }
    }
}

/// The link state as the status bar and the panels name it.
pub fn link_label(connected: bool) -> (res: &'static str)
    ensures
        res@ == if connected {
            "接続中"@
        } else {
            "切断"@
        },
{
    if connected {
        "接続中"
    } else {
        "切断"
    }
}

/// The unread badge of the status bar: ` 未読 N ` while anything is unread.
pub fn unread_badge(unread: usize) -> (res: Option<String>)
    ensures
        unread == 0 ==> res is None,
        unread > 0 ==> (res matches Some(b) && b@ == " 未読 "@ + dec_text(unread as nat) + " "@),
{
    if unread == 0 {
        return None;
    }
    let mut b = " 未読 ".to_owned();
    let n = decimal(unread as u64);
    b.append(n.as_str());
    b.append(" ");
    Some(b)
}

/// The tab is one of the operator screens.
pub open spec fn operator_tab(t: AdminTab) -> bool {
    t == AdminTab::Manual || t == AdminTab::SystemStatus || t == AdminTab::Cwsd
}

/// The tabs a role sees, in the order they are shown.
pub open spec fn tabs_for(operator: bool) -> Seq<AdminTab> {
    if operator {
        seq![
            AdminTab::Top,
            AdminTab::VirtualPanel,
            AdminTab::Alerts,
            AdminTab::Manual,
            AdminTab::SystemStatus,
            AdminTab::Cwsd,
            AdminTab::Rules,
            AdminTab::ConnectTest,
        ]
    } else {
        seq![
            AdminTab::Top,
            AdminTab::VirtualPanel,
            AdminTab::Alerts,
            AdminTab::Rules,
            AdminTab::ConnectTest,
        ]
    }
}

/// The tabs shown to a user with or without operator privileges.
pub fn admin_tabs(operator: bool) -> (res: Vec<AdminTab>)
    ensures
        res@ == tabs_for(operator),
{
    let mut v: Vec<AdminTab> = Vec::new();
    v.push(AdminTab::Top);
    v.push(AdminTab::VirtualPanel);
    v.push(AdminTab::Alerts);
    if operator {
        v.push(AdminTab::Manual);
        v.push(AdminTab::SystemStatus);
        v.push(AdminTab::Cwsd);
    }
    v.push(AdminTab::Rules);
    v.push(AdminTab::ConnectTest);
    assert(v@ =~= tabs_for(operator));
    v
}

/// The tab actually opened: an operator screen falls back to the top tab
/// for a user without operator privileges.
pub open spec fn guarded(t: AdminTab, operator: bool) -> AdminTab {
    if operator_tab(t) && !operator {
        AdminTab::Top
    } else {
        t
    }
}

/// The operator screens stay closed to other users: they are not among the
/// tabs shown to them, and selecting one opens the top tab instead; an
/// operator sees every tab and opens the one selected.
pub proof fn law_operator_screens_closed(t: AdminTab)
    ensures
        !operator_tab(guarded(t, false)),
        forall|i: int| 0 <= i < tabs_for(false).len() ==> !operator_tab(#[trigger] tabs_for(false)[i]),
        tabs_for(true).contains(t),
        guarded(t, true) == t,
{
    let k: int = match t {
        AdminTab::Top => 0,
        AdminTab::VirtualPanel => 1,
        AdminTab::Alerts => 2,
        AdminTab::Manual => 3,
        AdminTab::SystemStatus => 4,
        AdminTab::Cwsd => 5,
        AdminTab::Rules => 6,
        AdminTab::ConnectTest => 7,
    };
    assert(tabs_for(true)[k] == t);
}

/// The login state of the management screen.
#[derive(Clone, Debug)]
pub struct Session {
    pub logged_in: bool,
    pub role: Role,
    pub error: Option<String>,
    pub tab: AdminTab,
}

/// The message of a failed login.
pub open spec fn login_failed_text() -> Seq<char> {
    "ログイン名、パスワードが一致しません"@
}

impl Session {
    /// Logged out, as a general user, on the top tab.
    pub fn new() -> (res: Session)
        ensures
            !res.logged_in,
            res.role == Role::User,
            res.error is None,
            res.tab == AdminTab::Top,
    {
        Session { logged_in: false, role: Role::User, error: None, tab: AdminTab::Top }
    }

    /// A login attempt with the chosen role and the typed password (trimmed):
    /// on success the user is logged in with that role on the top tab;
    /// otherwise the session stays as it was and shows the failure message.
    pub fn submit_login(&mut self, role: Role, password: &str) -> (res: bool)
        ensures
            res == (trim(password@) == seed_password(role)),
            res ==> final(self).logged_in && final(self).role == role && final(self).error is None
                && final(self).tab == AdminTab::Top,
            !res ==> final(self).logged_in == old(self).logged_in && final(self).role == old(
                self,
            ).role && final(self).tab == old(self).tab && (final(self).error matches Some(e)
                && e@ == login_failed_text()),
    {
        let p = trimmed(password);
        if role.authenticate(p.as_str()) {
            self.logged_in = true;
            self.role = role;
            self.error = None;
            self.tab = AdminTab::Top;
            true
        } else {
            self.error = Some("ログイン名、パスワードが一致しません".to_owned());
            false
        }
    }

    /// Logs out.
    pub fn logout(&mut self)
        ensures
            !final(self).logged_in,
            final(self).role == old(self).role,
            final(self).tab == old(self).tab,
    {
        self.logged_in = false;
    }

    /// Opens a tab.
    pub fn select(&mut self, tab: AdminTab)
        ensures
            final(self).tab == tab,
            final(self).logged_in == old(self).logged_in,
            final(self).role == old(self).role,
    {
        self.tab = tab;
    }

    /// The tab to show, with operator screens closed to non-operators.
    pub fn current_tab(&self) -> (res: AdminTab)
        ensures
            res == guarded(self.tab, operator_role(self.role)),
    {
        let op = self.role.is_operator();
        if (self.tab == AdminTab::Manual || self.tab == AdminTab::SystemStatus || self.tab
            == AdminTab::Cwsd) && !op {
            AdminTab::Top
        } else {
            self.tab
        }
    }

    /// The tabs this session's role sees.
    pub fn tabs(&self) -> (res: Vec<AdminTab>)
        ensures
            res@ == tabs_for(operator_role(self.role)),
    {
        admin_tabs(self.role.is_operator())
    }
}

/// The state line of the top tab for a display mode.
pub open spec fn mode_text(mode: Seq<char>) -> Seq<char> {
    if mode == "alert"@ {
        "緊急情報を表示中"@
    } else if mode == "advisory"@ {
        "注意・情報あり"@
    } else {
        "受信待機中（異常なし）"@
    }
}

/// The state line of the top tab.
pub fn mode_summary(mode: &str) -> (res: &'static str)
    ensures
        res@ == mode_text(mode@),
{
    if str_eq(mode, "alert") {
        "緊急情報を表示中"
    } else if str_eq(mode, "advisory") {
        "注意・情報あり"
    } else {
        "受信待機中（異常なし）"
    }
}

/// `category　area`, as the top tab lists a channel.
pub open spec fn summary_text(c: AlertChannel) -> Seq<char> {
    category_label(c.category) + "　"@ + area_label_of(c)
}

/// The line the top tab shows for a channel.
pub fn channel_summary(c: &AlertChannel) -> (res: String)
    ensures
        res@ == summary_text(*c),
{
    let mut s = concat2(c.category.label(), "　");
    s.append(c.area_label());
    s
}

/// A port number typed into a form: the trimmed text as a `u16`.
pub open spec fn port_text(t: Seq<char>) -> Option<u16> {
    match u64_text(trim(t)) {
        Some(n) => if n <= 65535 {
            Some(n as u16)
        } else {
            None
        },
        None => None,
    }
}

/// Reads a port number typed into a form (`text.trim().parse::<u16>()`).
pub fn parse_port(text: &str) -> (res: Option<u16>)
    ensures
        res == port_text(text@),
{
    let t = trimmed(text);
    match parse_u64(t.as_str()) {
        Some(n) => if n <= 65535 {
            Some(n as u16)
        } else {
            None
        },
        None => None,
    }
}

/// The endpoint settings may be applied: the port is a number and the host
/// is not blank.
pub fn endpoint_form_ok(host: &str, port: &str) -> (res: bool)
    ensures
        res == (port_text(port@) is Some && trim(host@).len() > 0),
{
    let h = trimmed(host);
    parse_port(port).is_some() && !h.as_str().is_empty()
}

// ---------------------------------------------------------------------------
// Front panel
// ---------------------------------------------------------------------------

/// A lamp of the front panel.
#[derive(Clone, Copy, PartialEq, Eq, Debug, Structural)]
pub enum Lit {
    Off,
    Green,
    Red,
}

/// The lamps of the front panel.
#[derive(Clone, Copy, PartialEq, Eq, Debug, Structural)]
pub struct PanelLamps {
    /// リンク状態
    pub link: Lit,
    pub status: Lit,
    /// 衛星系
    pub satellite: Lit,
    /// 地上系
    pub terrestrial: Lit,
    /// アプリ
    pub app: Lit,
    /// 外部I/F
    pub external: Lit,
}

/// A channel received within the last two minutes.
pub open spec fn recently(ms: i64, now_ms: i64) -> bool {
    ms > 0 && now_ms - ms < 120_000
}

/// The front-panel lamps: link green while connected; status red in alert
/// mode, else green while connected; each receive channel green when it
/// received in the last two minutes; the application lamp red in alert
/// mode; the external interface lamp off (no such hardware here).
pub open spec fn panel_of(
    connected: bool,
    last_sat_ms: i64,
    last_terr_ms: i64,
    alert: bool,
    now_ms: i64,
) -> PanelLamps {
    PanelLamps {
        link: if connected {
            Lit::Green
        } else {
            Lit::Off
        },
        status: if alert {
            Lit::Red
        } else if connected {
            Lit::Green
        } else {
            Lit::Off
        },
        satellite: if recently(last_sat_ms, now_ms) {
            Lit::Green
        } else {
            Lit::Off
        },
        terrestrial: if recently(last_terr_ms, now_ms) {
            Lit::Green
        } else {
            Lit::Off
        },
        app: if alert {
            Lit::Red
        } else {
            Lit::Off
        },
        external: Lit::Off,
    }
}

/// Whether a channel received within the last two minutes.
fn recently_exec(ms: i64, now_ms: i64) -> (res: bool)
    ensures
        res == recently(ms, now_ms),
{
    ms > 0 && (now_ms as i128) - (ms as i128) < 120_000
}

/// The front-panel lamps for a receiver state at `now_ms`.
pub fn panel_lamps(
    connected: bool,
    last_sat_ms: i64,
    last_terr_ms: i64,
    alert: bool,
    now_ms: i64,
) -> (res: PanelLamps)
    ensures
        res == panel_of(connected, last_sat_ms, last_terr_ms, alert, now_ms),
{
    PanelLamps {
        link: if connected {
            Lit::Green
        } else {
            Lit::Off
        },
        status: if alert {
            Lit::Red
        } else if connected {
            Lit::Green
        } else {
            Lit::Off
        },
        satellite: if recently_exec(last_sat_ms, now_ms) {
            Lit::Green
        } else {
            Lit::Off
        },
        terrestrial: if recently_exec(last_terr_ms, now_ms) {
            Lit::Green
        } else {
            Lit::Off
        },
        app: if alert {
            Lit::Red
        } else {
            Lit::Off
        },
        external: Lit::Off,
    }
}


// ---------------------------------------------------------------------------
// Mailbox rows and details
// ---------------------------------------------------------------------------

/// The heading of a mailbox item: its area name, else its head title.
pub open spec fn item_heading(it: InboxView) -> Seq<char> {
    if it.area_name.len() > 0 {
        it.area_name
    } else {
        it.head_title
    }
}

/// The second line of a mailbox row: the kinds joined with `・`, else the
/// headline.
pub open spec fn item_kinds_text(it: InboxView) -> Seq<char> {
    if it.kinds.len() == 0 {
        it.headline
    } else {
        join_with(it.kinds, "・"@)
    }
}

/// The text a mailbox search looks in: category, telegram code, area name,
/// head title and kinds, separated by spaces.
pub open spec fn search_text(it: InboxView) -> Seq<char> {
    category_label(it.category) + " "@ + code_of(it.alert_type) + " "@ + it.area_name + " "@
        + it.head_title + " "@ + join_with(it.kinds, " "@)
}

/// The item is listed for the (trimmed) search text `q`: every item when it
/// is empty, else those whose search text contains it.
pub open spec fn matches_query(it: InboxView, q: Seq<char>) -> bool {
    q.len() == 0 || seq_contains(search_text(it), q)
}

/// A mailbox row as plain values.
pub struct RowView {
    pub id: u64,
    pub severity: Severity,
    pub category: Category,
    pub alert_type: AlertType,
    pub channel: RxChannel,
    pub area: Seq<char>,
    pub kinds: Seq<char>,
    pub info_type: Seq<char>,
    pub rx_time_ms: i64,
    pub read: bool,
}

/// The row of a mailbox item.
pub open spec fn row_of(it: InboxView) -> RowView {
    RowView {
        id: it.id,
        severity: it.severity,
        category: it.category,
        alert_type: it.alert_type,
        channel: it.channel,
        area: item_heading(it),
        kinds: item_kinds_text(it),
        info_type: it.info_type,
        rx_time_ms: it.rx_time_ms,
        read: it.read,
    }
}

/// The rows of the items that match `q`, newest first.
pub open spec fn rows_of(h: Seq<InboxView>, q: Seq<char>) -> Seq<RowView>
    decreases h.len(),
{
    if h.len() == 0 {
        Seq::empty()
    } else {
        (if matches_query(h.last(), q) {
            seq![row_of(h.last())]
        } else {
            Seq::empty()
        }) + rows_of(h.drop_last(), q)
    }
}

/// One row of the mailbox list.
#[derive(Clone, Debug)]
pub struct MailRow {
    pub id: u64,
    pub severity: Severity,
    pub category: Category,
    pub alert_type: AlertType,
    pub channel: RxChannel,
    /// Area name, else head title.
    pub area: String,
    /// Kinds joined with `・`, else the headline.
    pub kinds: String,
    pub info_type: String,
    pub rx_time_ms: i64,
    pub read: bool,
}

impl View for MailRow {
    type V = RowView;

    open spec fn view(&self) -> RowView {
        RowView {
            id: self.id,
            severity: self.severity,
            category: self.category,
            alert_type: self.alert_type,
            channel: self.channel,
            area: self.area@,
            kinds: self.kinds@,
            info_type: self.info_type@,
            rx_time_ms: self.rx_time_ms,
            read: self.read,
        }
    }
}

/// The views of a list of rows.
pub open spec fn row_views(v: Seq<MailRow>) -> Seq<RowView> {
    v.map_values(|r: MailRow| r@)
}

/// The search text of a mailbox item.
fn search_text_exec(it: &InboxItem) -> (res: String)
    ensures
        res@ == search_text(it@),
{
    let mut s = concat2(it.category.label(), " ");
    s.append(it.alert_type.code());
    s.append(" ");
    s.append(it.area_name.as_str());
    s.append(" ");
    s.append(it.head_title.as_str());
    s.append(" ");
    let k = join_strings(&it.kinds, " ");
    s.append(k.as_str());
    s
}

/// The row of a mailbox item.
fn row_exec(it: &InboxItem) -> (res: MailRow)
    ensures
        res@ == row_of(it@),
{
    let area = if !it.area_name.as_str().is_empty() {
        it.area_name.clone()
    } else {
        it.head_title.clone()
    };
    let kinds = if it.kinds.len() == 0 {
        it.headline.clone()
    } else {
        join_strings(&it.kinds, "・")
    };
    MailRow {
        id: it.id,
        severity: it.severity,
        category: it.category,
        alert_type: it.alert_type,
        channel: it.channel,
        area,
        kinds,
        info_type: it.info_type.clone(),
        rx_time_ms: it.rx_time_ms,
        read: it.read,
    }
}

/// A mailbox item's full record for the detail pane.
#[derive(Clone, Debug)]
pub struct ItemDetail {
    pub item: InboxItem,
    /// Area name, else head title.
    pub area: String,
}

impl AppState {
    /// The mailbox list (緊急情報一覧), newest first, filtered by a search
    /// text: with an empty (or blank) search every item is listed, else the
    /// items whose category, code, area name, head title or kinds contain it.
    pub fn mail_rows(&self, query: &str) -> (res: Vec<MailRow>)
        ensures
            row_views(res@) == rows_of(self.hist(), trim(query@)),
    {
        let q = trimmed(query);
        let items = self.items();
        let n = items.len();
        let mut out: Vec<MailRow> = Vec::new();
        let mut k: usize = 0;
        assert(self.hist().take(n as int) =~= self.hist());
        assert(row_views(out@) =~= Seq::<RowView>::empty());
        while k < n
            invariant
                n == items@.len(),
                item_views(items@) == self.hist(),
                k <= n,
                q@ == trim(query@),
                row_views(out@) + rows_of(self.hist().take(n - k), q@) == rows_of(self.hist(), q@),
            decreases n - k,
        {
            let i = n - 1 - k;
            let it = &items[i];
            let ghost pre = self.hist().take(n - k);
            assert(pre.last() == it@);
            assert(pre.drop_last() =~= self.hist().take(n - k - 1));
            let ghost before = out@;
            let keep = if q.as_str().is_empty() {
                true
            } else {
                let hay = search_text_exec(it);
                str_contains(hay.as_str(), q.as_str())
            };
            if keep {
                let r = row_exec(it);
                out.push(r);
                assert(row_views(out@) =~= row_views(before) + seq![row_of(it@)]);
            }
            assert(row_views(out@) + rows_of(self.hist().take(n - k - 1), q@) =~= row_views(before)
                + rows_of(pre, q@));
            k = k + 1;
        }
        assert(self.hist().take(0) =~= Seq::<InboxView>::empty());
        assert(row_views(out@) + Seq::<RowView>::empty() =~= row_views(out@));
        out
    }

    /// The detail record of the mailbox item with id `id`.
    pub fn detail(&self, id: u64) -> (res: Option<ItemDetail>)
        ensures
            match id_index(self.hist(), id, 0) {
                Some(i) => res matches Some(d) && d.item@ == self.hist()[i] && d.area@ == item_heading(
                    self.hist()[i],
                ),
                None => res is None,
            },
    {
        proof {
            lemma_id_index(self.hist(), id, 0);
        }
        match self.item(id) {
            Some(it) => {
                let area = if !it.area_name.as_str().is_empty() {
                    it.area_name.clone()
                } else {
                    it.head_title.clone()
                };
                let kinds = crate::state::copy_strings(&it.kinds);
                let item = InboxItem {
                    id: it.id,
                    rx_time_ms: it.rx_time_ms,
                    packet_time: it.packet_time.clone(),
                    alert_type: it.alert_type,
                    category: it.category,
                    allowed: it.allowed,
                    channel: it.channel,
                    severity: it.severity,
                    info_type: it.info_type.clone(),
                    title: it.title.clone(),
                    head_title: it.head_title.clone(),
                    area_name: it.area_name.clone(),
                    kinds,
                    headline: it.headline.clone(),
                    report_time: it.report_time.clone(),
                    read: it.read,
                    xml: it.xml.clone(),
                };
                assert(item@ =~= it@);
                Some(ItemDetail { item, area })
            },
            None => None,
        }
    }
}

/// A text, or `—` when it is empty (the detail pane's fields).
pub open spec fn or_dash(s: Seq<char>) -> Seq<char> {
    if s.len() == 0 {
        "—"@
    } else {
        s
    }
}

/// A field of the detail pane: the text, or `—` when it is empty.
pub fn dash_if_empty(s: &str) -> (res: &str)
    ensures
        res@ == or_dash(s@),
{
    if s.is_empty() {
        "—"
    } else {
        s
    }
}


// ---------------------------------------------------------------------------
// Kiosk screens
// ---------------------------------------------------------------------------

/// The strings of `v` other than `x`, in order.
pub open spec fn without(v: Seq<Seq<char>>, x: Seq<char>) -> Seq<Seq<char>>
    decreases v.len(),
{
    if v.len() == 0 {
        Seq::empty()
    } else {
        without(v.drop_last(), x) + if v.last() == x {
            Seq::empty()
        } else {
            seq![v.last()]
        }
    }
}

/// The kind names of a channel joined with `・`.
pub open spec fn kinds_joined(c: AlertChannel) -> Seq<char> {
    join_with(kind_names(c.kinds@), "・"@)
}

/// A line of the advisory banner: `【area】` and the kinds, or the category
/// for a channel without kinds.
pub open spec fn banner_text(c: AlertChannel) -> Seq<char> {
    "【"@ + area_label_of(c) + "】"@ + if c.kinds@.len() == 0 {
        category_label(c.category)
    } else {
        kinds_joined(c)
    }
}

/// A line for one of the other alerts: `category area：` and the kinds, or
/// the category when they join to nothing.
pub open spec fn other_text(c: AlertChannel) -> Seq<char> {
    category_label(c.category) + " "@ + area_label_of(c) + "："@ + if kinds_joined(c).len() == 0 {
        category_label(c.category)
    } else {
        kinds_joined(c)
    }
}

/// The banner lines of channels, in order.
pub open spec fn banner_texts(b: Seq<AlertChannel>) -> Seq<Seq<char>> {
    b.map_values(|c: AlertChannel| banner_text(c))
}

/// The full-screen alert as plain values.
pub struct AlertScreenView {
    pub severity: Severity,
    pub category: Category,
    pub alert_type: AlertType,
    pub area: Seq<char>,
    pub info_type: Seq<char>,
    pub kinds: Seq<Seq<char>>,
    pub headline: Seq<char>,
    pub report_time: Seq<char>,
    pub rx_time_ms: i64,
    pub sub_areas: Seq<Seq<char>>,
    pub other_count: nat,
    pub others: Seq<Seq<char>>,
}

/// The full-screen alert for alerts `a` in display order: the first one in
/// full, its other areas, and one line for each of the rest.
pub open spec fn alert_screen_of(a: Seq<AlertChannel>) -> AlertScreenView {
    let p = a[0];
    AlertScreenView {
        severity: effective_of(p),
        category: p.category,
        alert_type: p.alert_type,
        area: area_label_of(p),
        info_type: p.info_type@,
        kinds: kind_names(p.kinds@),
        headline: p.headline@,
        report_time: p.report_time@,
        rx_time_ms: p.rx_time_ms,
        sub_areas: without(string_views(p.areas@), p.area_name@),
        other_count: (a.len() - 1) as nat,
        others: a.skip(1).map_values(|c: AlertChannel| other_text(c)),
    }
}

/// What the full-screen alert shows.
#[derive(Clone, Debug)]
pub struct AlertScreen {
    pub severity: Severity,
    pub category: Category,
    pub alert_type: AlertType,
    pub area: String,
    pub info_type: String,
    pub kinds: Vec<String>,
    pub headline: String,
    pub report_time: String,
    pub rx_time_ms: i64,
    /// The other areas of the alert.
    pub sub_areas: Vec<String>,
    /// How many more alerts are in force.
    pub other_count: usize,
    /// One line for each of them.
    pub others: Vec<String>,
}

impl View for AlertScreen {
    type V = AlertScreenView;

    open spec fn view(&self) -> AlertScreenView {
        AlertScreenView {
            severity: self.severity,
            category: self.category,
            alert_type: self.alert_type,
            area: self.area@,
            info_type: self.info_type@,
            kinds: string_views(self.kinds@),
            headline: self.headline@,
            report_time: self.report_time@,
            rx_time_ms: self.rx_time_ms,
            sub_areas: string_views(self.sub_areas@),
            other_count: self.other_count as nat,
            others: string_views(self.others@),
        }
    }
}

/// The big heading of an alert: the graded level for weather, else the
/// category name.
pub open spec fn heading_text(category: Category, severity: Severity) -> Seq<char> {
    if category == Category::Weather {
        match severity {
            Severity::Emergency => "特別警報"@,
            Severity::Warning => "警報"@,
            Severity::Advisory => "注意報"@,
            Severity::Clear => "解除"@,
        }
    } else {
        category_label(category)
    }
}

/// The info line under the area: the info type (発表 when there is none),
/// and the number of other alerts in force when there are any.
pub open spec fn info_text(info_type: Seq<char>, others: nat) -> Seq<char> {
    let it = if info_type.len() == 0 {
        "発表"@
    } else {
        info_type
    };
    if others > 0 {
        it + "　／　他 "@ + dec_text(others) + " 件発表中"@
    } else {
        it
    }
}

/// The line of the other areas of an alert, when it has any.
pub open spec fn area_line_text(sub_areas: Seq<Seq<char>>) -> Option<Seq<char>> {
    if sub_areas.len() == 0 {
        None
    } else {
        Some("対象地域　"@ + join_with(sub_areas, "　"@))
    }
}

impl AlertScreen {
    /// The big heading.
    pub fn heading(&self) -> (res: &'static str)
        ensures
            res@ == heading_text(self.category, self.severity),
    {
        if self.category == Category::Weather {
            self.severity.label()
        } else {
            self.category.label()
        }
    }

    /// The info line under the area.
    pub fn info_line(&self) -> (res: String)
        ensures
            res@ == info_text(self.info_type@, self.other_count as nat),
    {
        let mut line = if self.info_type.as_str().is_empty() {
            "発表".to_owned()
        } else {
            self.info_type.clone()
        };
        if self.other_count > 0 {
            line.append("　／　他 ");
            let n = decimal(self.other_count as u64);
            line.append(n.as_str());
            line.append(" 件発表中");
        }
        line
    }

    /// `対象地域` and the other areas, when the alert has any.
    pub fn area_line(&self) -> (res: Option<String>)
        ensures
            match res {
                Some(l) => area_line_text(string_views(self.sub_areas@)) == Some(l@),
                None => area_line_text(string_views(self.sub_areas@)) is None,
            },
    {
        if self.sub_areas.len() == 0 {
            return None;
        }
        let mut l = "対象地域　".to_owned();
        let j = join_strings(&self.sub_areas, "　");
        l.append(j.as_str());
        Some(l)
    }
}

/// The tag of a mailbox item or alert: the graded level for weather, else
/// the category name.
pub fn tag_label(category: Category, severity: Severity) -> (res: &'static str)
    ensures
        res@ == heading_text(category, severity),
{
    if category == Category::Weather {
        severity.label()
    } else {
        category.label()
    }
}

/// The detail pane's read button: back to unread, or mark read.
pub fn read_toggle_label(read: bool) -> (res: &'static str)
    ensures
        res@ == if read {
            "未読に戻す"@
        } else {
            "既読にする"@
        },
{
    if read {
        "未読に戻す"
    } else {
        "既読にする"
    }
}

/// The telegram code a manually raised alert of a category is sent under;
/// test and uncategorised telegrams cannot be raised by hand.
pub open spec fn manual_type(c: Category) -> Option<AlertType> {
    match c {
        Category::Test | Category::Other => None,
        _ => Some(crate::classify::type_for_category(c)),
    }
}

/// The telegram code for raising an alert of a category by hand.
pub fn manual_kind(c: Category) -> (res: Option<AlertType>)
    ensures
        res == manual_type(c),
{
    match c {
        Category::Test | Category::Other => None,
        _ => Some(crate::classify::alert_type_for(c)),
    }
}

/// The area of a manually raised alert: the prefecture, or the prefecture
/// and a municipality separated by a space.
pub fn manual_area(prefecture: &str, city: Option<&str>) -> (res: String)
    ensures
        res@ == match city {
            Some(c) => prefecture@ + " "@ + c@,
            None => prefecture@,
        },
{
    match city {
        Some(c) => {
            let mut s = concat2(prefecture, " ");
            s.append(c);
            s
        },
        None => prefecture.to_owned(),
    }
}

/// The kind names of a channel joined with `・`.
fn kinds_joined_exec(c: &AlertChannel) -> (res: String)
    ensures
        res@ == kinds_joined(*c),
{
    let names = crate::state::names_of(&c.kinds);
    join_strings(&names, "・")
}

/// The banner line of a channel.
pub fn banner_line(c: &AlertChannel) -> (res: String)
    ensures
        res@ == banner_text(*c),
{
    let mut s = concat2("【", c.area_label());
    s.append("】");
    if c.kinds.len() == 0 {
        s.append(c.category.label());
    } else {
        let k = kinds_joined_exec(c);
        s.append(k.as_str());
    }
    s
}

/// The line of one of the other alerts.
pub fn other_line(c: &AlertChannel) -> (res: String)
    ensures
        res@ == other_text(*c),
{
    let mut s = concat2(c.category.label(), " ");
    s.append(c.area_label());
    s.append("：");
    let k = kinds_joined_exec(c);
    if k.as_str().is_empty() {
        s.append(c.category.label());
    } else {
        s.append(k.as_str());
    }
    s
}

/// The areas of a channel other than its area name, in order.
fn sub_areas_exec(c: &AlertChannel) -> (res: Vec<String>)
    ensures
        string_views(res@) == without(string_views(c.areas@), c.area_name@),
{
    let mut out: Vec<String> = Vec::new();
    let mut i: usize = 0;
    assert(string_views(c.areas@).take(0) =~= Seq::<Seq<char>>::empty());
    while i < c.areas.len()
        invariant
            i <= c.areas@.len(),
            string_views(out@) == without(string_views(c.areas@).take(i as int), c.area_name@),
        decreases c.areas@.len() - i,
    {
        let ghost pre = string_views(c.areas@).take(i as int);
        let ghost before = out@;
        assert(string_views(c.areas@).take(i + 1).drop_last() =~= pre);
        assert(string_views(c.areas@).take(i + 1).last() == c.areas@[i as int]@);
        if !str_eq(c.areas[i].as_str(), c.area_name.as_str()) {
            out.push(c.areas[i].clone());
            assert(string_views(out@) =~= string_views(before).push(c.areas@[i as int]@));
        }
        assert(string_views(out@) =~= without(string_views(c.areas@).take(i + 1), c.area_name@));
        i = i + 1;
    }
    assert(string_views(c.areas@).take(c.areas@.len() as int) =~= string_views(c.areas@));
    out
}

/// The full-screen alert for the alerts in display order (none without
/// alerts).
pub fn alert_screen(alerts: &Vec<&AlertChannel>) -> (res: Option<AlertScreen>)
    ensures
        alerts@.len() == 0 ==> res is None,
        alerts@.len() > 0 ==> (res matches Some(v) && v@ == alert_screen_of(derefs(alerts@))),
{
    if alerts.len() == 0 {
        return None;
    }
    let p: &AlertChannel = alerts[0];
    let ghost a = derefs(alerts@);
    assert(a[0] == *p);
    let names = crate::state::names_of(&p.kinds);
    let mut others: Vec<String> = Vec::new();
    let mut i: usize = 1;
    assert(string_views(others@) =~= a.skip(1).take(0).map_values(|c: AlertChannel| other_text(c)));
    while i < alerts.len()
        invariant
            1 <= i <= alerts@.len(),
            a == derefs(alerts@),
            string_views(others@) == a.skip(1).take(i - 1).map_values(
                |c: AlertChannel| other_text(c),
            ),
        decreases alerts@.len() - i,
    {
        let ghost before = others@;
        let line = other_line(alerts[i]);
        assert(a[i as int] == *alerts@[i as int]);
        others.push(line);
        assert(others@ == before.push(line));
        assert(string_views(before.push(line)) =~= string_views(before).push(line@));
        assert(a.skip(1).take(i as int) =~= a.skip(1).take(i - 1).push(a[i as int]));
        assert(a.skip(1).take(i - 1).push(a[i as int]).map_values(|c: AlertChannel| other_text(c))
            =~= a.skip(1).take(i - 1).map_values(|c: AlertChannel| other_text(c)).push(
            other_text(a[i as int]),
        ));
        i = i + 1;
    }
    assert(a.skip(1).take(alerts@.len() - 1) =~= a.skip(1));
    let v = AlertScreen {
        severity: p.effective_severity(),
        category: p.category,
        alert_type: p.alert_type,
        area: p.area_label().to_owned(),
        info_type: p.info_type.clone(),
        kinds: names,
        headline: p.headline.clone(),
        report_time: p.report_time.clone(),
        rx_time_ms: p.rx_time_ms,
        sub_areas: sub_areas_exec(p),
        other_count: alerts.len() - 1,
        others,
    };
    assert(v@ =~= alert_screen_of(a));
    Some(v)
}

/// The advisory banner lines for the banner channels in display order.
pub fn banner_lines(advisories: &Vec<&AlertChannel>) -> (res: Vec<String>)
    ensures
        string_views(res@) == banner_texts(derefs(advisories@)),
{
    let mut out: Vec<String> = Vec::new();
    let mut i: usize = 0;
    while i < advisories.len()
        invariant
            i <= advisories@.len(),
            string_views(out@) == derefs(advisories@).take(i as int).map_values(
                |c: AlertChannel| banner_text(c),
            ),
        decreases advisories@.len() - i,
    {
        let ghost before = out@;
        let line = banner_line(advisories[i]);
        out.push(line);
        let ghost d = derefs(advisories@);
        assert(d[i as int] == *advisories@[i as int]);
        assert(out@ == before.push(line));
        assert(string_views(before.push(line)) =~= string_views(before).push(line@));
        assert(d.take(i + 1) =~= d.take(i as int).push(d[i as int]));
        assert(d.take(i as int).push(d[i as int]).map_values(|c: AlertChannel| banner_text(c))
            =~= d.take(i as int).map_values(|c: AlertChannel| banner_text(c)).push(
            banner_text(d[i as int]),
        ));
        i = i + 1;
    }
    assert(derefs(advisories@).take(advisories@.len() as int) =~= derefs(advisories@));
    assert(string_views(out@) =~= banner_texts(derefs(advisories@)));
    out
}

/// What the kiosk shows.
#[derive(Clone, Debug)]
pub enum Screen {
    /// A full-screen alert.
    Alert(AlertScreen),
    /// The standby screen, with the advisory banner lines and the lit
    /// category lamps.
    Standby { banners: Vec<String>, lamps: Vec<crate::model::LampGroup> },
}

impl AppState {
    /// What the kiosk shows now: the full-screen alert in alert mode, else
    /// the standby screen with its banner and lamps.
    pub fn screen(&self) -> (res: Screen)
        ensures
            res is Alert <==> mode_of(self.chans()) == "alert"@,
            res matches Screen::Alert(v) ==> alert_order(self.chans()).len() > 0 && v@
                == alert_screen_of(alert_order(self.chans())),
            res matches Screen::Standby { banners, lamps } ==> lamps@ == crate::state::lamps_upto(
                self.chans(),
                self.chans().len() as int,
            ) && string_views(banners@) == banner_texts(banner_order(self.chans())),
    {
        let m = self.mode();
        proof {
            crate::state::law_alert_mode_has_primary(self.chans());
        }
        if str_eq(m, "alert") {
            let alerts = self.alerts();
            proof {
                broadcast use vstd::seq_lib::group_to_multiset_ensures;

                let f = fullscreen_list(self.chans());
                assert(derefs(alerts@).len() == alerts@.len());
                assert(derefs(alerts@).to_multiset().len() == f.to_multiset().len());
            }
            match alert_screen(&alerts) {
                Some(v) => Screen::Alert(v),
                None => Screen::Standby { banners: Vec::new(), lamps: Vec::new() },
            }
        } else {
            let adv = self.advisories();
            let banners = banner_lines(&adv);
            let lamps = self.active_lamps();
            Screen::Standby { banners, lamps }
        }
    }
}


// ---------------------------------------------------------------------------
// Times
// ---------------------------------------------------------------------------

/// The earliest instant (epoch milliseconds, some years into the Common Era)
/// from which on [`local_reading`] is claimed of the local clock.
pub const LOCAL_MIN_MS: i64 = -62_000_000_000_000;

/// The earliest and latest instants (epoch milliseconds) chrono can hold: the
/// start of 1 January of year -262143 and the last millisecond of
/// 31 December of year 262142 (`DateTime::from_timestamp_millis`).
pub const CLOCK_MIN_MS: i64 = -8_334_601_228_800_000;

/// See [`CLOCK_MIN_MS`].
pub const CLOCK_MAX_MS: i64 = 8_210_266_876_799_999;

/// `mo`/`d` `h`:`mi`:`s` is a wall-clock reading of instant `ms` in a zone
/// less than a day from UTC: some year `y` makes it a valid date-time, and
/// `ms` lies less than a day before the second the reading names begins, or
/// less than a day after it ends.
pub open spec fn local_reading(ms: int, mo: u32, d: u32, h: u32, mi: u32, s: u32) -> bool {
    exists|y: int|
        #![trigger wall_clock_ms(y, mo as int, d as int, h as int, mi as int, s as int)]
        y >= 0 && valid_datetime(y, mo as int, d as int, h as int, mi as int, s as int)
            && wall_clock_ms(y, mo as int, d as int, h as int, mi as int, s as int) - 86_400_000 < ms
            < wall_clock_ms(y, mo as int, d as int, h as int, mi as int, s as int) + 1000
            + 86_400_000
}

/// `chrono::Local.timestamp_millis_opt(ms).single()` and, of that local
/// date-time, `Datelike::month` and `day` and `Timelike::hour`, `minute` and
/// `second`; `None` where the instant has no single local time. chrono
/// documents the fields' ranges (month 1 to 12, day 1 to 31, hour 0 to 23,
/// minute and second 0 to 59), and that a local time is the instant shifted
/// by a `FixedOffset` of less than a day: so the fields read the instant's
/// second at such an offset ([`local_reading`], claimed from
/// [`LOCAL_MIN_MS`] on, where the year is not negative). There are fields
/// exactly for the instants chrono can hold ([`CLOCK_MIN_MS`] to
/// [`CLOCK_MAX_MS`]): `timestamp_millis_opt` gives a single local time for
/// each of them and none otherwise. Which offset, and so which fields,
/// depends on the machine's time zone, and is not stated.
#[verifier::external_body]
fn local_fields(ms: i64) -> (res: Option<(u32, u32, u32, u32, u32)>)
    ensures
        res is Some <==> CLOCK_MIN_MS <= ms <= CLOCK_MAX_MS,
        res matches Some((mo, d, h, mi, s)) ==> 1 <= mo <= 12 && 1 <= d <= 31 && h < 24 && mi < 60
            && s < 60,
        res matches Some((mo, d, h, mi, s)) ==> (ms >= LOCAL_MIN_MS ==> local_reading(
            ms as int,
            mo,
            d,
            h,
            mi,
            s,
        )),
{
    match chrono::Local.timestamp_millis_opt(ms).single() {
        Some(t) => Some((t.month(), t.day(), t.hour(), t.minute(), t.second())),
        None => None,
    }
}

/// A number below 100 as two digits.
pub open spec fn two_digits(n: nat) -> Seq<char> {
    seq![digit_char(n / 10), digit_char(n % 10)]
}

/// `HH:MM:SS`.
pub open spec fn hms_text(h: nat, mi: nat, s: nat) -> Seq<char> {
    two_digits(h) + ":"@ + two_digits(mi) + ":"@ + two_digits(s)
}

/// `MM/DD HH:MM:SS`.
pub open spec fn md_hms_text(mo: nat, d: nat, h: nat, mi: nat, s: nat) -> Seq<char> {
    two_digits(mo) + "/"@ + two_digits(d) + " "@ + hms_text(h, mi, s)
}

/// A clock text: `—`, or a time of day.
pub open spec fn is_clock_text(t: Seq<char>) -> bool {
    t == "—"@ || exists|h: nat, mi: nat, s: nat|
        #![trigger hms_text(h, mi, s)]
        h < 24 && mi < 60 && s < 60 && t == hms_text(h, mi, s)
}

/// A date-and-clock text: `—`, or a month, day and time of day.
pub open spec fn is_date_clock_text(t: Seq<char>) -> bool {
    t == "—"@ || exists|mo: nat, d: nat, h: nat, mi: nat, s: nat|
        #![trigger md_hms_text(mo, d, h, mi, s)]
        1 <= mo <= 12 && 1 <= d <= 31 && h < 24 && mi < 60 && s < 60 && t == md_hms_text(
            mo,
            d,
            h,
            mi,
            s,
        )
}

/// A number below 100 as two digits.
fn two_digit_text(n: u32) -> (res: String)
    requires
        n < 100,
    ensures
        res@ == two_digits(n as nat),
{
    let mut t = crate::text::digit_str((n / 10) as u64).to_owned();
    t.append(crate::text::digit_str((n % 10) as u64));
    t
}

/// The time of day of local date-time fields, or `—` without them.
pub fn hms_of(fields: Option<(u32, u32, u32, u32, u32)>) -> (res: String)
    requires
        fields matches Some((mo, d, h, mi, s)) ==> h < 100 && mi < 100 && s < 100,
    ensures
        res@ == match fields {
            Some((_, _, h, mi, s)) => hms_text(h as nat, mi as nat, s as nat),
            None => "—"@,
        },
{
    match fields {
        Some((_, _, h, mi, s)) => {
            let mut t = two_digit_text(h);
            t.append(":");
            let m = two_digit_text(mi);
            t.append(m.as_str());
            t.append(":");
            let x = two_digit_text(s);
            t.append(x.as_str());
            t
        },
        None => "—".to_owned(),
    }
}

/// The date and time of day of local date-time fields, or `—` without them.
pub fn md_hms_of(fields: Option<(u32, u32, u32, u32, u32)>) -> (res: String)
    requires
        fields matches Some((mo, d, h, mi, s)) ==> mo < 100 && d < 100 && h < 100 && mi < 100 && s
            < 100,
    ensures
        res@ == match fields {
            Some((mo, d, h, mi, s)) => md_hms_text(mo as nat, d as nat, h as nat, mi as nat, s as nat),
            None => "—"@,
        },
{
    match fields {
        Some((mo, d, h, mi, s)) => {
            let mut t = two_digit_text(mo);
            t.append("/");
            let dd = two_digit_text(d);
            t.append(dd.as_str());
            t.append(" ");
            let rest = hms_of(fields);
            t.append(rest.as_str());
            t
        },
        None => "—".to_owned(),
    }
}

/// The local time of day (`HH:MM:SS`) of an epoch-millisecond instant, or
/// `—` when it has none.
pub fn hms(ms: i64) -> (res: String)
    ensures
        is_clock_text(res@),
        res@ == "—"@ <==> !(CLOCK_MIN_MS <= ms <= CLOCK_MAX_MS),
        res@ != "—"@ && ms >= LOCAL_MIN_MS ==> exists|mo: u32, d: u32, h: u32, mi: u32, s: u32|
            #![trigger local_reading(ms as int, mo, d, h, mi, s)]
            local_reading(ms as int, mo, d, h, mi, s) && res@ == hms_text(
                h as nat,
                mi as nat,
                s as nat,
            ),
{
    let f = local_fields(ms);
    let t = hms_of(f);
    proof {
        if let Some((mo, d, h, mi, s)) = f {
            assert(t@ == hms_text(h as nat, mi as nat, s as nat));
            reveal_strlit("—");
            reveal_strlit(":");
            assert(t@.len() == 8);
            if ms >= LOCAL_MIN_MS {
                assert(local_reading(ms as int, mo, d, h, mi, s));
            }
        } else {
            assert(t@ == "—"@);
        }
    }
    t
}

/// The local date and time (`MM/DD HH:MM:SS`) of an epoch-millisecond
/// instant, or `—` when it has none.
pub fn md_hms(ms: i64) -> (res: String)
    ensures
        is_date_clock_text(res@),
        res@ == "—"@ <==> !(CLOCK_MIN_MS <= ms <= CLOCK_MAX_MS),
        res@ != "—"@ && ms >= LOCAL_MIN_MS ==> exists|mo: u32, d: u32, h: u32, mi: u32, s: u32|
            #![trigger local_reading(ms as int, mo, d, h, mi, s)]
            local_reading(ms as int, mo, d, h, mi, s) && res@ == md_hms_text(
                mo as nat,
                d as nat,
                h as nat,
                mi as nat,
                s as nat,
            ),
{
    let f = local_fields(ms);
    let t = md_hms_of(f);
    proof {
        if let Some((mo, d, h, mi, s)) = f {
            assert(t@ == md_hms_text(mo as nat, d as nat, h as nat, mi as nat, s as nat));
            reveal_strlit("—");
            reveal_strlit(":");
            reveal_strlit("/");
            reveal_strlit(" ");
            assert(t@.len() == 14);
            if ms >= LOCAL_MIN_MS {
                assert(local_reading(ms as int, mo, d, h, mi, s));
            }
        } else {
            assert(t@ == "—"@);
        }
    }
    t
}

/// What `chrono::DateTime::parse_from_rfc3339` followed by formatting with
/// `%Y/%m/%d %H:%M` makes of a text (`None` when it is no RFC 3339 time).
pub uninterp spec fn rfc3339_minutes(iso: Seq<char>) -> Option<Seq<char>>;

/// `chrono::DateTime::parse_from_rfc3339(iso)` formatted as
/// `%Y/%m/%d %H:%M` in the time's own offset: the result is the named
/// function of the text, and an empty text is no RFC 3339 time.
#[verifier::external_body]
fn rfc3339_display(iso: &str) -> (res: Option<String>)
    ensures
        match res {
            Some(s) => rfc3339_minutes(iso@) == Some(s@),
            None => rfc3339_minutes(iso@) is None,
        },
        iso@.len() == 0 ==> res is None,
{
    match chrono::DateTime::parse_from_rfc3339(iso) {
        Ok(d) => Some(d.format("%Y/%m/%d %H:%M").to_string()),
        Err(_) => None,
    }
}

/// A report time as shown: the formatted time when it parsed, else the raw
/// text, or `—` when there is none.
pub open spec fn report_text(parsed: Option<Seq<char>>, iso: Seq<char>) -> Seq<char> {
    match parsed {
        Some(s) => s,
        None => if iso.len() == 0 {
            "—"@
        } else {
            iso
        },
    }
}

/// The report time as shown, from the parse result `parsed` of `iso`.
pub fn report_or_raw(parsed: Option<String>, iso: &str) -> (res: String)
    ensures
        res@ == report_text(
            match parsed {
                Some(s) => Some(s@),
                None => None,
            },
            iso@,
        ),
{
    match parsed {
        Some(s) => s,
        None => if iso.is_empty() {
            "—".to_owned()
        } else {
            iso.to_owned()
        },
    }
}

/// A report time (`2026-06-28T19:46:00+09:00`) as `2026/06/28 19:46`; the
/// raw text when it does not parse, `—` when it is empty.
pub fn report_fmt(iso: &str) -> (res: String)
    ensures
        res@ == report_text(rfc3339_minutes(iso@), iso@),
{
    let parsed = rfc3339_display(iso);
    report_or_raw(parsed, iso)
}

// ---------------------------------------------------------------------------
// Colours and sounds
// ---------------------------------------------------------------------------

/// A colour as red, green and blue.
#[derive(Clone, Copy, PartialEq, Eq, Debug, Structural)]
pub struct Rgb {
    pub r: u8,
    pub g: u8,
    pub b: u8,
}

/// The colour of a display level.
pub fn sev_color(s: Severity) -> (res: Rgb)
    ensures
        res == match s {
            Severity::Emergency => Rgb { r: 0x9a, g: 0x0e, b: 0x8e },
            Severity::Warning => Rgb { r: 0xce, g: 0x00, b: 0x12 },
            Severity::Advisory => Rgb { r: 0xf2, g: 0xc2, b: 0x00 },
            Severity::Clear => Rgb { r: 0x76, g: 0x76, b: 0x80 },
        },
{
    match s {
        Severity::Emergency => Rgb { r: 0x9a, g: 0x0e, b: 0x8e },
        Severity::Warning => Rgb { r: 0xce, g: 0x00, b: 0x12 },
        Severity::Advisory => Rgb { r: 0xf2, g: 0xc2, b: 0x00 },
        Severity::Clear => Rgb { r: 0x76, g: 0x76, b: 0x80 },
    }
}

/// The ink that reads on top of a level's colour: dark on the yellow of an
/// advisory, white otherwise.
pub fn sev_ink(s: Severity) -> (res: Rgb)
    ensures
        res == if s == Severity::Advisory {
            Rgb { r: 0x1a, g: 0x1a, b: 0x1c }
        } else {
            Rgb { r: 0xff, g: 0xff, b: 0xff }
        },
{
    match s {
        Severity::Advisory => Rgb { r: 0x1a, g: 0x1a, b: 0x1c },
        _ => Rgb { r: 0xff, g: 0xff, b: 0xff },
    }
}

/// The accent colour of a category.
pub fn cat_color(c: Category) -> (res: Rgb)
    ensures
        res == match c {
            Category::CivilProtection => Rgb { r: 0x9a, g: 0x0e, b: 0x8e },
            Category::EmergencyContact => Rgb { r: 0xb5, g: 0x3a, b: 0x8e },
            Category::Eew => Rgb { r: 0xe6, g: 0x00, b: 0x12 },
            Category::Tsunami => Rgb { r: 0xd5, g: 0x4f, b: 0x00 },
            Category::Volcano => Rgb { r: 0xb0, g: 0x3a, b: 0x2e },
            Category::Earthquake | Category::SeismicIntensity => Rgb { r: 0xc7, g: 0x8a, b: 0x00 },
            Category::Weather => Rgb { r: 0x1f, g: 0x6f, b: 0xb2 },
            Category::Test => Rgb { r: 0x4a, g: 0x8a, b: 0x4a },
            Category::Other => Rgb { r: 0x76, g: 0x76, b: 0x80 },
        },
{
    match c {
        Category::CivilProtection => Rgb { r: 0x9a, g: 0x0e, b: 0x8e },
        Category::EmergencyContact => Rgb { r: 0xb5, g: 0x3a, b: 0x8e },
        Category::Eew => Rgb { r: 0xe6, g: 0x00, b: 0x12 },
        Category::Tsunami => Rgb { r: 0xd5, g: 0x4f, b: 0x00 },
        Category::Volcano => Rgb { r: 0xb0, g: 0x3a, b: 0x2e },
        Category::Earthquake | Category::SeismicIntensity => Rgb { r: 0xc7, g: 0x8a, b: 0x00 },
        Category::Weather => Rgb { r: 0x1f, g: 0x6f, b: 0xb2 },
        Category::Test => Rgb { r: 0x4a, g: 0x8a, b: 0x4a },
        Category::Other => Rgb { r: 0x76, g: 0x76, b: 0x80 },
    }
}

/// The full-screen alert backgrounds of the real-artwork style.
#[derive(Clone, Copy, PartialEq, Eq, Debug, Structural)]
pub enum AlertArt {
    CivilProtection,
    Earthquake,
    Tsunami,
    Volcano,
}

/// The real-artwork background of a category's full-screen alert, if it has
/// one (weather and the others fall back to a colour-coded screen).
pub fn alert_art(c: Category) -> (res: Option<AlertArt>)
    ensures
        res == match c {
            Category::CivilProtection => Some(AlertArt::CivilProtection),
            Category::Eew | Category::Earthquake | Category::SeismicIntensity => Some(
                AlertArt::Earthquake,
            ),
            Category::Tsunami => Some(AlertArt::Tsunami),
            Category::Volcano => Some(AlertArt::Volcano),
            _ => None,
        },
{
    match c {
        Category::CivilProtection => Some(AlertArt::CivilProtection),
        Category::Eew | Category::Earthquake | Category::SeismicIntensity => Some(
            AlertArt::Earthquake,
        ),
        Category::Tsunami => Some(AlertArt::Tsunami),
        Category::Volcano => Some(AlertArt::Volcano),
        _ => None,
    }
}

/// The spoken announcements that follow the chime.
#[derive(Clone, Copy, PartialEq, Eq, Debug, Structural)]
pub enum Announcement {
    CivilProtection,
    Earthquake,
    Tsunami,
    Volcano,
}

/// The announcement a category's alert plays after the chime, if any.
pub fn announcement_for(c: Category) -> (res: Option<Announcement>)
    ensures
        res == match c {
            Category::CivilProtection => Some(Announcement::CivilProtection),
            Category::Eew | Category::Earthquake | Category::SeismicIntensity => Some(
                Announcement::Earthquake,
            ),
            Category::Tsunami => Some(Announcement::Tsunami),
            Category::Volcano => Some(Announcement::Volcano),
            _ => None,
        },
{
    match c {
        Category::CivilProtection => Some(Announcement::CivilProtection),
        Category::Eew | Category::Earthquake | Category::SeismicIntensity => Some(
            Announcement::Earthquake,
        ),
        Category::Tsunami => Some(Announcement::Tsunami),
        Category::Volcano => Some(Announcement::Volcano),
        _ => None,
    }
}

} // verus!
