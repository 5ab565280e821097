//! Shared application state: the live warning channels that drive the
//! display, a mailbox-style history of every received telegram, and the
//! supporting state of the management screens (外部インタフェース動作ルール,
//! システム状態, 接続テスト, 同報系I/F 状態).
//!
//! Channels are keyed by their `key` (category + area); each key appears at
//! most once, and a newer report supersedes the previous one. The history is
//! kept oldest first and capped at [`HISTORY_CAP`] items.

use crate::model::{
    area_label_of, category_label, effective_of, fullscreen_of, lamp_of, level, max_severity,
    priority_of, string_views, AlertChannel, AlertKind, AlertType, Category, ChannelView,
    InboxItem, InboxView, LampGroup, ReceiverStatus, RxChannel, Severity,
};
use crate::classify::{from_json_line, line_channel};
use crate::clock::now_millis;
use crate::text::{concat2, str_eq};
use vstd::prelude::*;

verus! {

/// The most mailbox items kept; the oldest are dropped beyond it.
pub const HISTORY_CAP: usize = 500;

/// One row of the 外部インタフェース動作ルール table. `display` doubles as the
/// 緊急情報表示設定 (whether a telegram of this category reaches the screen);
/// the rest mirror the external actions the receiver can fire.
#[derive(Clone, Debug)]
pub struct InterfaceRule {
    pub category: Category,
    pub alert_type: AlertType,
    pub display: bool,
    pub sound: bool,
    pub contact_out: bool,
    pub cwsd: bool,
}

/// A simulated broadcast-link (同報系防災行政無線) status. There is no real
/// hardware behind it, so it is static.
#[derive(Clone, Debug)]
pub struct CwsdStatus {
    pub host: String,
    pub local_no: String,
    pub remote_no: String,
    pub command: String,
    pub queue_len: u32,
    pub connected: bool,
    pub checksum: String,
}

impl Default for CwsdStatus {
    fn default() -> (res: Self)
        ensures
            res.host@ == "192.168.200.121#3399"@,
            res.local_no@ == "11"@,
            res.remote_no@ == "01"@,
            res.command@ == "20"@,
            res.queue_len == 0,
            !res.connected,
            res.checksum@ == "----"@,
    {
        CwsdStatus {
            host: "192.168.200.121#3399".to_owned(),
            local_no: "11".to_owned(),
            remote_no: "01".to_owned(),
            command: "20".to_owned(),
            queue_len: 0,
            connected: false,
            checksum: "----".to_owned(),
        }
    }
}

/// Result of a 接続テスト run.
#[derive(Clone, Debug)]
pub struct ConnectTestResult {
    pub at_ms: i64,
    pub ok: bool,
    pub message: String,
}

/// The slot of a telegram type in the per-type counters.
pub open spec fn type_slot(t: AlertType) -> int {
    match t {
        AlertType::Jalt => 0,
        AlertType::Eprq => 1,
        AlertType::Issw => 2,
        AlertType::Volc => 3,
        AlertType::Ifda => 4,
        AlertType::Ioeq => 5,
        AlertType::Wrma => 6,
        AlertType::Unknown => 7,
    }
}

fn type_slot_exec(t: AlertType) -> (res: usize)
    ensures
        res == type_slot(t),
        res < 8,
{
    match t {
        AlertType::Jalt => 0,
        AlertType::Eprq => 1,
        AlertType::Issw => 2,
        AlertType::Volc => 3,
        AlertType::Ifda => 4,
        AlertType::Ioeq => 5,
        AlertType::Wrma => 6,
        AlertType::Unknown => 7,
    }
}

/// The seed rule of a category, in the order of [`default_rules`].
pub open spec fn seed_rule(i: int) -> (Category, AlertType, bool, bool, bool, bool) {
    if i == 0 {
        (Category::CivilProtection, AlertType::Jalt, true, true, true, true)
    } else if i == 1 {
        (Category::Eew, AlertType::Eprq, true, true, true, true)
    } else if i == 2 {
        (Category::Tsunami, AlertType::Issw, true, true, true, true)
    } else if i == 3 {
        (Category::Volcano, AlertType::Volc, true, true, false, true)
    } else if i == 4 {
        (Category::EmergencyContact, AlertType::Ifda, true, true, false, true)
    } else if i == 5 {
        (Category::Test, AlertType::Jalt, true, false, false, false)
    } else if i == 6 {
        (Category::SeismicIntensity, AlertType::Ioeq, true, false, false, false)
    } else if i == 7 {
        (Category::Earthquake, AlertType::Ioeq, true, false, false, false)
    } else if i == 8 {
        (Category::Weather, AlertType::Wrma, true, false, false, false)
    } else {
        (Category::Other, AlertType::Unknown, true, false, false, false)
    }
}

/// A rule as plain values.
pub open spec fn rule_tuple(r: InterfaceRule) -> (Category, AlertType, bool, bool, bool, bool) {
    (r.category, r.alert_type, r.display, r.sound, r.contact_out, r.cwsd)
}

fn rule(
    category: Category,
    alert_type: AlertType,
    display: bool,
    sound: bool,
    contact_out: bool,
    cwsd: bool,
) -> (res: InterfaceRule)
    ensures
        rule_tuple(res) == (category, alert_type, display, sound, contact_out, cwsd),
{
    InterfaceRule { category, alert_type, display, sound, contact_out, cwsd }
}

/// Some rule is for category `c`.
pub open spec fn has_rule(rules: Seq<InterfaceRule>, c: Category) -> bool {
    exists|i: int| 0 <= i < rules.len() && #[trigger] rules[i].category == c
}

/// The seed 外部インタフェース動作ルール, one row per category, ordered by
/// display priority. Display is on for everything; an operator can switch a
/// category off so it no longer takes over the kiosk.
pub fn default_rules() -> (res: Vec<InterfaceRule>)
    ensures
        res@.len() == 10,
        forall|i: int| 0 <= i < 10 ==> rule_tuple(#[trigger] res@[i]) == seed_rule(i),
        forall|i: int, j: int|
            0 <= i < j < 10 ==> priority_of(#[trigger] res@[i].category) >= priority_of(
                #[trigger] res@[j].category,
            ),
        forall|i: int, j: int|
            0 <= i < j < 10 ==> #[trigger] res@[i].category != #[trigger] res@[j].category,
        forall|c: Category| #[trigger] has_rule(res@, c),
        forall|i: int| 0 <= i < 10 ==> #[trigger] res@[i].display,
{
    let mut v: Vec<InterfaceRule> = Vec::new();
    v.push(rule(Category::CivilProtection, AlertType::Jalt, true, true, true, true));
    v.push(rule(Category::Eew, AlertType::Eprq, true, true, true, true));
    v.push(rule(Category::Tsunami, AlertType::Issw, true, true, true, true));
    v.push(rule(Category::Volcano, AlertType::Volc, true, true, false, true));
    v.push(rule(Category::EmergencyContact, AlertType::Ifda, true, true, false, true));
    v.push(rule(Category::Test, AlertType::Jalt, true, false, false, false));
    v.push(rule(Category::SeismicIntensity, AlertType::Ioeq, true, false, false, false));
    v.push(rule(Category::Earthquake, AlertType::Ioeq, true, false, false, false));
    v.push(rule(Category::Weather, AlertType::Wrma, true, false, false, false));
    v.push(rule(Category::Other, AlertType::Unknown, true, false, false, false));
    proof {
        assert forall|c: Category| #[trigger] has_rule(v@, c) by {
            match c {
                Category::CivilProtection => assert(v@[0].category == c),
                Category::Eew => assert(v@[1].category == c),
                Category::Tsunami => assert(v@[2].category == c),
                Category::Volcano => assert(v@[3].category == c),
                Category::EmergencyContact => assert(v@[4].category == c),
                Category::Test => assert(v@[5].category == c),
                Category::SeismicIntensity => assert(v@[6].category == c),
                Category::Earthquake => assert(v@[7].category == c),
                Category::Weather => assert(v@[8].category == c),
                Category::Other => assert(v@[9].category == c),
            }
        }
    }
    v
}

/// Whether the display rule lets a category reach the screen: the `display`
/// flag of the first rule for that category; true when there is none.
pub open spec fn display_allowed(rules: Seq<InterfaceRule>, c: Category, i: int) -> bool
    decreases rules.len() - i,
{
    if i < 0 || i >= rules.len() {
        true
    } else if rules[i].category == c {
        rules[i].display
    } else {
        display_allowed(rules, c, i + 1)
    }
}

/// The first index at or after `i` of a channel with key `key`.
pub open spec fn key_index(chans: Seq<AlertChannel>, key: Seq<char>, i: int) -> Option<int>
    decreases chans.len() - i,
{
    if i < 0 || i >= chans.len() {
        None
    } else if chans[i].key@ == key {
        Some(i)
    } else {
        key_index(chans, key, i + 1)
    }
}

/// The channels after a report `c` comes in: a cancellation (Clear) removes
/// the channel of its key; otherwise `c` replaces it, or is added.
pub open spec fn stored(chans: Seq<AlertChannel>, c: AlertChannel) -> Seq<AlertChannel> {
    match key_index(chans, c.key@, 0) {
        Some(i) => if effective_of(c) == Severity::Clear {
            chans.remove(i)
        } else {
            chans.update(i, c)
        },
        None => if effective_of(c) == Severity::Clear {
            chans
        } else {
            chans.push(c)
        },
    }
}

/// The names of a list of kinds.
pub open spec fn kind_names(ks: Seq<AlertKind>) -> Seq<Seq<char>> {
    ks.map_values(|k: AlertKind| k.name@)
}

/// The last mailbox item below index `n` from the same source: same head
/// title and category.
pub open spec fn last_same_source(h: Seq<InboxView>, head: Seq<char>, cat: Category, n: int) -> Option<
    int,
>
    decreases n,
{
    if n <= 0 || n > h.len() {
        None
    } else if h[n - 1].head_title == head && h[n - 1].category == cat {
        Some(n - 1)
    } else {
        last_same_source(h, head, cat, n - 1)
    }
}

/// Item `item` already records report `c`: same display level, info type,
/// headline and kinds (a retransmit).
pub open spec fn repeats(item: InboxView, c: AlertChannel) -> bool {
    item.severity == effective_of(c) && item.info_type == c.info_type@ && item.headline == c.headline@
        && item.kinds == kind_names(c.kinds@)
}

/// Report `c` is a retransmit of the last item from its source.
pub open spec fn is_repeat(h: Seq<InboxView>, c: AlertChannel) -> bool {
    match last_same_source(h, c.head_title@, c.category, h.len() as int) {
        Some(i) => repeats(h[i], c),
        None => false,
    }
}

/// The mailbox item a report becomes, unread, with its display level.
pub open spec fn new_item(c: AlertChannel, id: u64) -> InboxView {
    InboxView {
        id: id,
        rx_time_ms: c.rx_time_ms,
        packet_time: c.packet_time@,
        alert_type: c.alert_type,
        category: c.category,
        allowed: c.allowed,
        channel: c.channel,
        severity: effective_of(c),
        info_type: c.info_type@,
        title: c.title@,
        head_title: c.head_title@,
        area_name: c.area_name@,
        kinds: kind_names(c.kinds@),
        headline: c.headline@,
        report_time: c.report_time@,
        read: false,
        xml: c.xml@,
    }
}

/// The last [`HISTORY_CAP`] items.
pub open spec fn capped(h: Seq<InboxView>) -> Seq<InboxView> {
    if h.len() > HISTORY_CAP {
        h.skip(h.len() - HISTORY_CAP)
    } else {
        h
    }
}

/// The mailbox after report `c` comes in: a retransmit refreshes the receive
/// time, packet time and channel of the item it repeats; anything else is
/// added as a new unread item with id `next_id`, the oldest dropped beyond
/// the cap.
pub open spec fn recorded(h: Seq<InboxView>, next_id: u64, c: AlertChannel) -> Seq<InboxView> {
    if is_repeat(h, c) {
        let i = last_same_source(h, c.head_title@, c.category, h.len() as int)->0;
        h.update(
            i,
            InboxView { rx_time_ms: c.rx_time_ms, packet_time: c.packet_time@, channel: c.channel, ..h[i] },
        )
    } else {
        capped(h.push(new_item(c, next_id)))
    }
}


/// The views of a mailbox.
pub open spec fn item_views(h: Seq<InboxItem>) -> Seq<InboxView> {
    h.map_values(|it: InboxItem| it@)
}

/// Channel keys are distinct.
pub open spec fn keys_distinct(chans: Seq<AlertChannel>) -> bool {
    forall|i: int, j: int|
        0 <= i < j < chans.len() ==> #[trigger] chans[i].key@ != #[trigger] chans[j].key@
}

/// Mailbox ids increase and stay below `next_id`.
pub open spec fn ids_ordered(h: Seq<InboxItem>, next_id: u64) -> bool {
    &&& forall|i: int, j: int| 0 <= i < j < h.len() ==> #[trigger] h[i].id < #[trigger] h[j].id
    &&& forall|i: int| 0 <= i < h.len() ==> #[trigger] h[i].id < next_id
}

/// What `key_index` finds: the first channel at or after `i` with the key.
pub proof fn lemma_key_index(chans: Seq<AlertChannel>, key: Seq<char>, i: int)
    requires
        0 <= i,
    ensures
        match key_index(chans, key, i) {
            Some(k) => i <= k < chans.len() && chans[k].key@ == key && forall|j: int|
                i <= j < k ==> chans[j].key@ != key,
            None => forall|j: int| i <= j < chans.len() ==> chans[j].key@ != key,
        },
    decreases chans.len() - i,
{
    if i < chans.len() && chans[i].key@ != key {
        lemma_key_index(chans, key, i + 1);
    }
}

/// What `last_same_source` finds: an item below `n` from that source.
pub proof fn lemma_last_same_source(h: Seq<InboxView>, head: Seq<char>, cat: Category, n: int)
    requires
        0 <= n <= h.len(),
    ensures
        match last_same_source(h, head, cat, n) {
            Some(k) => 0 <= k < n && h[k].head_title == head && h[k].category == cat,
            None => true,
        },
    decreases n,
{
    if n > 0 && !(h[n - 1].head_title == head && h[n - 1].category == cat) {
        lemma_last_same_source(h, head, cat, n - 1);
    }
}

/// What `id_index` finds: the first item at or after `i` with the id.
pub proof fn lemma_id_index(h: Seq<InboxView>, id: u64, i: int)
    requires
        0 <= i,
    ensures
        match id_index(h, id, i) {
            Some(k) => i <= k < h.len() && h[k].id == id && forall|j: int|
                i <= j < k ==> h[j].id != id,
            None => forall|j: int| i <= j < h.len() ==> h[j].id != id,
        },
    decreases h.len() - i,
{
    if i < h.len() && h[i].id != id {
        lemma_id_index(h, id, i + 1);
    }
}

/// The index of the channel with key `key`.
fn find_key(chans: &Vec<AlertChannel>, key: &str) -> (res: Option<usize>)
    ensures
        match res {
            Some(i) => key_index(chans@, key@, 0) == Some(i as int),
            None => key_index(chans@, key@, 0) is None,
        },
{
    let mut i: usize = 0;
    while i < chans.len()
        invariant
            i <= chans@.len(),
            key_index(chans@, key@, 0) == key_index(chans@, key@, i as int),
        decreases chans@.len() - i,
    {
        if str_eq(chans[i].key.as_str(), key) {
            return Some(i);
        }
        i = i + 1;
    }
    None
}

/// Stores report `c`: a cancellation removes the channel of its key;
/// otherwise `c` replaces it, or is added.
fn store_channel(chans: &mut Vec<AlertChannel>, c: AlertChannel)
    requires
        keys_distinct(old(chans)@),
    ensures
        final(chans)@ == stored(old(chans)@, c),
        keys_distinct(final(chans)@),
{
    let ghost old_chans = chans@;
    let ghost cv = c;
    proof {
        lemma_key_index(chans@, c.key@, 0);
    }
    let idx = find_key(chans, c.key.as_str());
    if c.effective_severity() == Severity::Clear {
        match idx {
            Some(i) => {
                chans.remove(i);
                assert forall|p: int, q: int| 0 <= p < q < chans@.len() implies #[trigger] chans@[p].key@
                    != #[trigger] chans@[q].key@ by {
                    let pp = if p < i { p } else { p + 1 };
                    let qq = if q < i { q } else { q + 1 };
                    assert(chans@[p] == old_chans[pp]);
                    assert(chans@[q] == old_chans[qq]);
                }
            },
            None => {},
        }
    } else {
        match idx {
            Some(i) => {
                chans.set(i, c);
                assert forall|p: int, q: int| 0 <= p < q < chans@.len() implies #[trigger] chans@[p].key@
                    != #[trigger] chans@[q].key@ by {
                    if p == i as int {
                        assert(old_chans[q].key@ != old_chans[i as int].key@);
                    }
                    if q == i as int {
                        assert(old_chans[p].key@ != old_chans[i as int].key@);
                    }
                }
            },
            None => {
                chans.push(c);
                assert forall|p: int, q: int| 0 <= p < q < chans@.len() implies #[trigger] chans@[p].key@
                    != #[trigger] chans@[q].key@ by {
                    if q == old_chans.len() {
                        assert(old_chans[p].key@ != cv.key@);
                    }
                }
            },
        }
    }
}

/// The names of a list of kinds.
pub(crate) fn names_of(ks: &Vec<AlertKind>) -> (res: Vec<String>)
    ensures
        string_views(res@) == kind_names(ks@),
{
    let mut out: Vec<String> = Vec::new();
    let mut i: usize = 0;
    while i < ks.len()
        invariant
            i <= ks@.len(),
            string_views(out@) == kind_names(ks@.take(i as int)),
        decreases ks@.len() - i,
    {
        let ghost before = out@;
        let name = ks[i].name.clone();
        out.push(name);
        assert(out@ == before.push(name));
        assert(ks@.take(i + 1) =~= ks@.take(i as int).push(ks@[i as int]));
        assert(string_views(before.push(name)) =~= string_views(before).push(name@));
        assert(kind_names(ks@.take(i as int).push(ks@[i as int])) =~= kind_names(
            ks@.take(i as int),
        ).push(ks@[i as int].name@));
        assert(string_views(out@) =~= kind_names(ks@.take(i + 1)));
        i = i + 1;
    }
    assert(ks@.take(ks@.len() as int) =~= ks@);
    out
}

/// A copy of a list of strings.
pub(crate) fn copy_strings(v: &Vec<String>) -> (res: Vec<String>)
    ensures
        string_views(res@) == string_views(v@),
{
    let mut out: Vec<String> = Vec::new();
    let mut i: usize = 0;
    while i < v.len()
        invariant
            i <= v@.len(),
            string_views(out@) == string_views(v@.take(i as int)),
        decreases v@.len() - i,
    {
        let ghost before = out@;
        let x = v[i].clone();
        out.push(x);
        assert(out@ == before.push(x));
        assert(v@.take(i + 1) =~= v@.take(i as int).push(v@[i as int]));
        assert(string_views(before.push(x)) =~= string_views(before).push(x@));
        assert(string_views(v@.take(i as int).push(v@[i as int])) =~= string_views(
            v@.take(i as int),
        ).push(v@[i as int]@));
        assert(string_views(out@) =~= string_views(v@.take(i + 1)));
        i = i + 1;
    }
    assert(v@.take(v@.len() as int) =~= v@);
    out
}

/// Whether two lists of strings hold the same strings in the same order.
fn same_strings(a: &Vec<String>, b: &Vec<String>) -> (res: bool)
    ensures
        res == (string_views(a@) == string_views(b@)),
{
    if a.len() != b.len() {
        proof {
            if string_views(a@) == string_views(b@) {
                assert(string_views(a@).len() == a@.len());
            }
        }
        return false;
    }
    let mut i: usize = 0;
    while i < a.len()
        invariant
            a@.len() == b@.len(),
            i <= a@.len(),
            forall|k: int| 0 <= k < i ==> a@[k]@ == b@[k]@,
        decreases a@.len() - i,
    {
        if !str_eq(a[i].as_str(), b[i].as_str()) {
            assert(string_views(a@)[i as int] != string_views(b@)[i as int]);
            return false;
        }
        i = i + 1;
    }
    assert(string_views(a@) =~= string_views(b@));
    true
}

/// A copy of a mailbox item.
fn copy_item(it: &InboxItem) -> (res: InboxItem)
    ensures
        res@ == it@,
{
    InboxItem {
        id: it.id,
        rx_time_ms: it.rx_time_ms,
        packet_time: it.packet_time.clone(),
        alert_type: it.alert_type,
        category: it.category,
        allowed: it.allowed,
        channel: it.channel,
        severity: it.severity,
        info_type: it.info_type.clone(),
        title: it.title.clone(),
        head_title: it.head_title.clone(),
        area_name: it.area_name.clone(),
        kinds: copy_strings(&it.kinds),
        headline: it.headline.clone(),
        report_time: it.report_time.clone(),
        read: it.read,
        xml: it.xml.clone(),
    }
}

/// The last mailbox item from the source `head` / `cat`.
fn find_same_source(h: &Vec<InboxItem>, head: &str, cat: Category) -> (res: Option<usize>)
    ensures
        match res {
            Some(i) => last_same_source(item_views(h@), head@, cat, h@.len() as int) == Some(
                i as int,
            ),
            None => last_same_source(item_views(h@), head@, cat, h@.len() as int) is None,
        },
{
    let mut n: usize = h.len();
    while n > 0
        invariant
            n <= h@.len(),
            last_same_source(item_views(h@), head@, cat, h@.len() as int) == last_same_source(
                item_views(h@),
                head@,
                cat,
                n as int,
            ),
        decreases n,
    {
        if str_eq(h[n - 1].head_title.as_str(), head) && h[n - 1].category == cat {
            return Some(n - 1);
        }
        n = n - 1;
    }
    None
}

/// Records report `c` in the mailbox (see [`recorded`]).
fn record_history(h: &mut Vec<InboxItem>, next_id: &mut u64, c: &AlertChannel)
    requires
        old(h)@.len() <= HISTORY_CAP,
        ids_ordered(old(h)@, *old(next_id)),
        *old(next_id) < u64::MAX,
    ensures
        item_views(final(h)@) == recorded(item_views(old(h)@), *old(next_id), *c),
        *final(next_id) == if is_repeat(item_views(old(h)@), *c) {
            *old(next_id)
        } else {
            (*old(next_id) + 1) as u64
        },
        final(h)@.len() <= HISTORY_CAP,
        ids_ordered(final(h)@, *final(next_id)),
{
    let ghost hv = item_views(h@);
    let ghost old_h = h@;
    let kinds = names_of(&c.kinds);
    let found = find_same_source(h, c.head_title.as_str(), c.category);
    proof {
        lemma_last_same_source(hv, c.head_title@, c.category, hv.len() as int);
    }
    let level = c.effective_severity();
    match found {
        Some(p) => {
            if h[p].severity == level && str_eq(h[p].info_type.as_str(), c.info_type.as_str())
                && str_eq(h[p].headline.as_str(), c.headline.as_str()) && same_strings(
                &h[p].kinds,
                &kinds,
            ) {
                assert(is_repeat(hv, *c));
                let mut item = copy_item(&h[p]);
                item.rx_time_ms = c.rx_time_ms;
                item.packet_time = c.packet_time.clone();
                item.channel = c.channel;
                h.set(p, item);
                assert(item_views(h@) =~= recorded(hv, *old(next_id), *c));
                assert forall|i: int, j: int| 0 <= i < j < h@.len() implies #[trigger] h@[i].id
                    < #[trigger] h@[j].id by {
                    assert(h@[i].id == old_h[i].id);
                    assert(h@[j].id == old_h[j].id);
                }
                assert forall|i: int| 0 <= i < h@.len() implies #[trigger] h@[i].id < *next_id by {
                    assert(h@[i].id == old_h[i].id);
                }
                return ;
            }
        },
        None => {},
    }
    assert(!is_repeat(hv, *c));
    let item = InboxItem {
        id: *next_id,
        rx_time_ms: c.rx_time_ms,
        packet_time: c.packet_time.clone(),
        alert_type: c.alert_type,
        category: c.category,
        allowed: c.allowed,
        channel: c.channel,
        severity: c.effective_severity(),
        info_type: c.info_type.clone(),
        title: c.title.clone(),
        head_title: c.head_title.clone(),
        area_name: c.area_name.clone(),
        kinds,
        headline: c.headline.clone(),
        report_time: c.report_time.clone(),
        read: false,
        xml: c.xml.clone(),
    };
    assert(item@ == new_item(*c, *old(next_id)));
    *next_id = *next_id + 1;
    h.push(item);
    let ghost pushed = h@;
    assert(item_views(pushed) =~= hv.push(new_item(*c, *old(next_id))));
    if h.len() > HISTORY_CAP {
        h.remove(0);
        assert(item_views(h@) =~= item_views(pushed).skip(1));
    }
    assert(item_views(h@) =~= recorded(hv, *old(next_id), *c));
    assert forall|i: int, j: int| 0 <= i < j < h@.len() implies #[trigger] h@[i].id
        < #[trigger] h@[j].id by {
        let off = pushed.len() - h@.len();
        assert(h@[i] == pushed[i + off]);
        assert(h@[j] == pushed[j + off]);
    }
    assert forall|i: int| 0 <= i < h@.len() implies #[trigger] h@[i].id < *next_id by {
        let off = pushed.len() - h@.len();
        assert(h@[i] == pushed[i + off]);
    }
}

/// The channel as stored: `allowed` set by the display rule of its category.
pub open spec fn as_allowed(rules: Seq<InterfaceRule>, ch: AlertChannel) -> AlertChannel {
    AlertChannel { allowed: display_allowed(rules, ch.category, 0), ..ch }
}

/// `after` is `before` once report `ch` came in at `now_ms`: the line is
/// counted, the display rule of its category decides whether it reaches the
/// screen, the mailbox records it (see [`recorded`]) and the channels store
/// it (see [`stored`]); rules, link status and test result are unchanged.
pub open spec fn ingested(before: AppState, after: AppState, ch: AlertChannel, now_ms: i64) -> bool {
    let c = as_allowed(before.rules@, ch);
    &&& after.chans() == stored(before.chans(), c)
    &&& after.hist() == recorded(before.hist(), before.next(), c)
    &&& after.next() == if is_repeat(before.hist(), c) {
        before.next()
    } else {
        (before.next() + 1) as u64
    }
    &&& after.receiver.last_line_ms == now_ms
    &&& after.receiver.total_lines == before.receiver.total_lines + 1
    &&& after.receiver.connected == before.receiver.connected
    &&& after.receiver.source == before.receiver.source
    &&& after.last_sat_ms == if ch.channel == RxChannel::Satellite {
        now_ms
    } else {
        before.last_sat_ms
    }
    &&& after.last_terr_ms == if ch.channel == RxChannel::Terrestrial {
        now_ms
    } else {
        before.last_terr_ms
    }
    &&& after.counts() == before.counts().update(
        type_slot(ch.alert_type),
        (before.counts()[type_slot(ch.alert_type)] + 1) as u64,
    )
    &&& after.rules == before.rules
    &&& after.cwsd == before.cwsd
    &&& after.connect_test == before.connect_test
}


/// A channel shows on the kiosk at all: allowed and at least advisory level.
pub open spec fn shown(c: AlertChannel) -> bool {
    c.allowed && level(effective_of(c)) >= 1
}

/// The highest display level among the allowed channels (Clear if none).
pub open spec fn top_allowed(chans: Seq<AlertChannel>) -> Severity
    decreases chans.len(),
{
    if chans.len() == 0 {
        Severity::Clear
    } else if chans.last().allowed {
        max_severity(top_allowed(chans.drop_last()), effective_of(chans.last()))
    } else {
        top_allowed(chans.drop_last())
    }
}

/// The display mode: `alert` when some channel takes over the screen,
/// `advisory` when some channel shows as a banner, else `standby`.
pub open spec fn mode_of(chans: Seq<AlertChannel>) -> Seq<char> {
    if exists|i: int| 0 <= i < chans.len() && fullscreen_of(#[trigger] chans[i]) {
        "alert"@
    } else if exists|i: int| 0 <= i < chans.len() && shown(#[trigger] chans[i]) {
        "advisory"@
    } else {
        "standby"@
    }
}

/// `a` comes no later than `b` among the alerts: higher category priority,
/// then higher display level, then more recent.
pub open spec fn alert_ge(a: AlertChannel, b: AlertChannel) -> bool {
    let (pa, pb) = (priority_of(a.category), priority_of(b.category));
    let (la, lb) = (level(effective_of(a)), level(effective_of(b)));
    pa > pb || (pa == pb && (la > lb || (la == lb && a.rx_time_ms >= b.rx_time_ms)))
}

/// Where alert `c` goes in the ordered alerts `v`, searching from `i`: before
/// the first alert that does not come before it, else at the end.
pub open spec fn insert_pos(v: Seq<AlertChannel>, c: AlertChannel, i: int) -> int
    decreases v.len() - i,
{
    if i < 0 || i >= v.len() {
        v.len() as int
    } else if !alert_ge(v[i], c) {
        i
    } else {
        insert_pos(v, c, i + 1)
    }
}

/// The alerts in display order: the full-screen channels taken in channel
/// order, each placed after every alert already placed that comes no later
/// than it (see [`alert_ge`]).
pub open spec fn alert_order(chans: Seq<AlertChannel>) -> Seq<AlertChannel>
    decreases chans.len(),
{
    if chans.len() == 0 {
        Seq::empty()
    } else {
        let r = alert_order(chans.drop_last());
        if fullscreen_of(chans.last()) {
            r.insert(insert_pos(r, chans.last(), 0), chans.last())
        } else {
            r
        }
    }
}

/// Where banner `c` goes in the ordered banners `v`, searching from `i`:
/// before the first one received earlier than it, else at the end.
pub open spec fn banner_pos(v: Seq<AlertChannel>, c: AlertChannel, i: int) -> int
    decreases v.len() - i,
{
    if i < 0 || i >= v.len() {
        v.len() as int
    } else if v[i].rx_time_ms < c.rx_time_ms {
        i
    } else {
        banner_pos(v, c, i + 1)
    }
}

/// The banners in display order: the banner channels taken in channel
/// order, each placed after every banner already placed that was received
/// no earlier than it.
pub open spec fn banner_order(chans: Seq<AlertChannel>) -> Seq<AlertChannel>
    decreases chans.len(),
{
    if chans.len() == 0 {
        Seq::empty()
    } else {
        let r = banner_order(chans.drop_last());
        if is_banner(chans.last()) {
            r.insert(banner_pos(r, chans.last(), 0), chans.last())
        } else {
            r
        }
    }
}

/// The channels that take over the screen, in channel order.
pub open spec fn fullscreen_list(chans: Seq<AlertChannel>) -> Seq<AlertChannel>
    decreases chans.len(),
{
    if chans.len() == 0 {
        Seq::empty()
    } else if fullscreen_of(chans.last()) {
        fullscreen_list(chans.drop_last()).push(chans.last())
    } else {
        fullscreen_list(chans.drop_last())
    }
}

/// A channel shows as a banner: allowed, not full screen, at least advisory.
pub open spec fn is_banner(c: AlertChannel) -> bool {
    c.allowed && !fullscreen_of(c) && level(effective_of(c)) >= 1
}

/// The banner channels, in channel order.
pub open spec fn banner_list(chans: Seq<AlertChannel>) -> Seq<AlertChannel>
    decreases chans.len(),
{
    if chans.len() == 0 {
        Seq::empty()
    } else if is_banner(chans.last()) {
        banner_list(chans.drop_last()).push(chans.last())
    } else {
        banner_list(chans.drop_last())
    }
}

/// The channels a list of references points to.
pub open spec fn derefs(s: Seq<&AlertChannel>) -> Seq<AlertChannel> {
    s.map_values(|r: &AlertChannel| *r)
}

/// The standby lamps lit by the first `n` channels, each once, in order of
/// first lighting.
pub open spec fn lamps_upto(chans: Seq<AlertChannel>, n: int) -> Seq<LampGroup>
    decreases n,
{
    if n <= 0 || n > chans.len() {
        Seq::empty()
    } else {
        let l = lamps_upto(chans, n - 1);
        let c = chans[n - 1];
        if shown(c) {
            match lamp_of(c.category) {
                Some(g) => if l.contains(g) {
                    l
                } else {
                    l.push(g)
                },
                None => l,
            }
        } else {
            l
        }
    }
}

/// The number of unread items.
pub open spec fn unread_count(h: Seq<InboxView>) -> nat
    decreases h.len(),
{
    if h.len() == 0 {
        0
    } else {
        unread_count(h.drop_last()) + if h.last().read {
            0nat
        } else {
            1nat
        }
    }
}

/// The first index at or after `i` of the item with id `id`.
pub open spec fn id_index(h: Seq<InboxView>, id: u64, i: int) -> Option<int>
    decreases h.len() - i,
{
    if i < 0 || i >= h.len() {
        None
    } else if h[i].id == id {
        Some(i)
    } else {
        id_index(h, id, i + 1)
    }
}

/// The mailbox with the item of id `id` marked read (or unread); unchanged
/// when no item has that id.
pub open spec fn marked(h: Seq<InboxView>, id: u64, read: bool) -> Seq<InboxView> {
    match id_index(h, id, 0) {
        Some(i) => h.update(i, InboxView { read: read, ..h[i] }),
        None => h,
    }
}

/// Two states agree in everything but the mailbox: the live channels, the
/// next id, the receiver and broadcast-link status, the rules, the last
/// connection test, the last receive times and the per-type counters.
pub open spec fn same_but_mailbox(a: AppState, b: AppState) -> bool {
    &&& a.chans() == b.chans()
    &&& a.next() == b.next()
    &&& a.receiver == b.receiver
    &&& a.rules == b.rules
    &&& a.cwsd == b.cwsd
    &&& a.connect_test == b.connect_test
    &&& a.last_sat_ms == b.last_sat_ms
    &&& a.last_terr_ms == b.last_terr_ms
    &&& a.counts() == b.counts()
}

/// The mailbox with every item marked read.
pub open spec fn all_read(h: Seq<InboxView>) -> Seq<InboxView> {
    h.map_values(|it: InboxView| InboxView { read: true, ..it })
}

/// The telegram type counted in slot `i`.
pub open spec fn type_at(i: int) -> AlertType {
    if i == 0 {
        AlertType::Jalt
    } else if i == 1 {
        AlertType::Eprq
    } else if i == 2 {
        AlertType::Issw
    } else if i == 3 {
        AlertType::Volc
    } else if i == 4 {
        AlertType::Ifda
    } else if i == 5 {
        AlertType::Ioeq
    } else if i == 6 {
        AlertType::Wrma
    } else {
        AlertType::Unknown
    }
}

/// Whether `a` comes no later than `b` among the alerts.
fn alert_ge_exec(a: &AlertChannel, b: &AlertChannel) -> (res: bool)
    ensures
        res == alert_ge(*a, *b),
{
    let pa = a.category.priority();
    let pb = b.category.priority();
    let la = a.effective_severity().rank();
    let lb = b.effective_severity().rank();
    pa > pb || (pa == pb && (la > lb || (la == lb && a.rx_time_ms >= b.rx_time_ms)))
}

/// What the state keeps to itself: the live channels, the mailbox, the next
/// mailbox id and the per-type counters. Only the methods of [`AppState`]
/// change them, and they keep [`Store::wf`].
pub struct Store {
    channels: Vec<AlertChannel>,
    history: Vec<InboxItem>,
    next_id: u64,
    type_counts: [u64; 8],
}

impl Store {
    /// The live channels.
    pub closed spec fn chans(&self) -> Seq<AlertChannel> {
        self.channels@
    }

    /// The mailbox, oldest first.
    pub closed spec fn hist(&self) -> Seq<InboxView> {
        self.history@.map_values(|h: InboxItem| h@)
    }

    /// The id the next new mailbox item gets.
    pub closed spec fn next(&self) -> u64 {
        self.next_id
    }

    /// Received lines per telegram type, by [`type_slot`].
    pub closed spec fn counts(&self) -> Seq<u64> {
        self.type_counts@
    }

    /// Channel keys are distinct; the mailbox holds at most [`HISTORY_CAP`]
    /// items whose ids increase and stay below the next id, which is not 0;
    /// there are eight counters.
    pub closed spec fn wf(&self) -> bool {
        &&& forall|i: int, j: int|
            0 <= i < j < self.channels@.len() ==> #[trigger] self.channels@[i].key@
                != #[trigger] self.channels@[j].key@
        &&& self.history@.len() <= HISTORY_CAP
        &&& forall|i: int, j: int|
            0 <= i < j < self.history@.len() ==> #[trigger] self.history@[i].id
                < #[trigger] self.history@[j].id
        &&& forall|i: int| 0 <= i < self.history@.len() ==> #[trigger] self.history@[i].id < self.next_id
        &&& self.next_id >= 1
    }
}

/// The shared state. The live channels, the mailbox, the next mailbox id and
/// the per-type counters sit in its [`Store`], read through the methods
/// below, which keep [`AppState::inv`].
pub struct AppState {
    pub store: Store,
    pub receiver: ReceiverStatus,
    pub rules: Vec<InterfaceRule>,
    pub cwsd: CwsdStatus,
    pub connect_test: Option<ConnectTestResult>,
    /// Last receive time on the satellite / terrestrial channel.
    pub last_sat_ms: i64,
    pub last_terr_ms: i64,
}

impl AppState {
    /// The live channels.
    pub open spec fn chans(&self) -> Seq<AlertChannel> {
        self.store.chans()
    }

    /// The mailbox, oldest first.
    pub open spec fn hist(&self) -> Seq<InboxView> {
        self.store.hist()
    }

    /// The id the next new mailbox item gets.
    pub open spec fn next(&self) -> u64 {
        self.store.next()
    }

    /// Received lines per telegram type, by [`type_slot`].
    pub open spec fn counts(&self) -> Seq<u64> {
        self.store.counts()
    }

    /// The state is well formed: its store is (see [`Store::wf`]).
    pub open spec fn inv(&self) -> bool {
        self.store.wf()
    }

    /// No counter is at its limit, so one more line can be counted.
    pub open spec fn has_room_spec(&self) -> bool {
        &&& self.receiver.total_lines < u64::MAX
        &&& self.next() < u64::MAX
        &&& forall|i: int| 0 <= i < 8 ==> #[trigger] self.counts()[i] < u64::MAX
    }

    /// A fresh state reading from `source`: no channels, an empty mailbox,
    /// the seed rules, the static broadcast-link status, and zero counters.
    pub fn new(source: String) -> (res: AppState)
        ensures
            res.inv(),
            res.has_room_spec(),
            res.chans().len() == 0,
            res.hist().len() == 0,
            res.next() == 1,
            res.receiver.source == source,
            !res.receiver.connected,
            res.receiver.last_line_ms == 0,
            res.receiver.total_lines == 0,
            res.rules@.len() == 10,
            forall|i: int| 0 <= i < 10 ==> rule_tuple(#[trigger] res.rules@[i]) == seed_rule(i),
            res.cwsd.host@ == "192.168.200.121#3399"@ && res.cwsd.local_no@ == "11"@
                && res.cwsd.remote_no@ == "01"@ && res.cwsd.command@ == "20"@ && res.cwsd.queue_len
                == 0 && !res.cwsd.connected && res.cwsd.checksum@ == "----"@,
            res.connect_test is None,
            res.last_sat_ms == 0,
            res.last_terr_ms == 0,
            forall|i: int| 0 <= i < 8 ==> #[trigger] res.counts()[i] == 0,
    {
        AppState {
            store: Store { channels: Vec::new(), history: Vec::new(), next_id: 1, type_counts: [0; 8] },
            receiver: ReceiverStatus { connected: false, source, last_line_ms: 0, total_lines: 0 },
            rules: default_rules(),
            cwsd: CwsdStatus::default(),
            connect_test: None,
            last_sat_ms: 0,
            last_terr_ms: 0,
        }
    }

    /// The `display` flag of the first rule for a category; true when no
    /// rule names it.
    fn rule_for(&self, category: Category) -> (res: bool)
        ensures
            res == display_allowed(self.rules@, category, 0),
    {
        let mut i: usize = 0;
        while i < self.rules.len()
            invariant
                i <= self.rules@.len(),
                display_allowed(self.rules@, category, 0) == display_allowed(
                    self.rules@,
                    category,
                    i as int,
                ),
            decreases self.rules@.len() - i,
        {
            if self.rules[i].category == category {
                return self.rules[i].display;
            }
            i = i + 1;
        }
        true
    }

    /// Applies one decoded telegram received at `now_ms`: counts it, lets
    /// the display rule of its category decide whether it reaches the
    /// screen, records it in the mailbox, and updates the channels (a
    /// cancellation removes the channel of its key, anything else replaces
    /// or adds it).
    pub fn ingest_at(&mut self, ch: AlertChannel, now_ms: i64)
        requires
            old(self).inv(),
            old(self).has_room_spec(),
        ensures
            final(self).inv(),
            ingested(*old(self), *final(self), ch, now_ms),
    {
        self.receiver.last_line_ms = now_ms;
        self.receiver.total_lines = self.receiver.total_lines + 1;
        let slot = type_slot_exec(ch.alert_type);
        assert(old(self).counts()[slot as int] < u64::MAX);
        self.store.type_counts[slot] = self.store.type_counts[slot] + 1;
        match ch.channel {
            RxChannel::Satellite => self.last_sat_ms = now_ms,
            RxChannel::Terrestrial => self.last_terr_ms = now_ms,
            RxChannel::Unknown => {},
        }
        let mut ch = ch;
        ch.allowed = self.rule_for(ch.category);
        record_history(&mut self.store.history, &mut self.store.next_id, &ch);
        store_channel(&mut self.store.channels, ch);
    }


    /// Records whether the upstream link is up.
    pub fn set_connected(&mut self, connected: bool)
        ensures
            final(self).receiver.connected == connected,
            final(self).receiver.source == old(self).receiver.source,
            final(self).receiver.last_line_ms == old(self).receiver.last_line_ms,
            final(self).receiver.total_lines == old(self).receiver.total_lines,
            final(self).store == old(self).store,
            final(self).rules == old(self).rules,
            final(self).cwsd == old(self).cwsd,
            final(self).connect_test == old(self).connect_test,
            final(self).last_sat_ms == old(self).last_sat_ms,
            final(self).last_terr_ms == old(self).last_terr_ms,
    {
        self.receiver.connected = connected;
    }

    /// The highest display level among the allowed channels.
    pub fn top_severity(&self) -> (res: Severity)
        ensures
            res == top_allowed(self.chans()),
    {
        let mut top = Severity::Clear;
        let mut i: usize = 0;
        while i < self.store.channels.len()
            invariant
                i <= self.store.channels@.len(),
                top == top_allowed(self.store.channels@.take(i as int)),
            decreases self.store.channels@.len() - i,
        {
            let ghost pre = self.store.channels@.take(i as int);
            assert(self.store.channels@.take(i + 1).drop_last() =~= pre);
            if self.store.channels[i].allowed {
                let e = self.store.channels[i].effective_severity();
                if !(top.rank() >= e.rank()) {
                    top = e;
                }
            }
            i = i + 1;
        }
        assert(self.store.channels@.take(self.store.channels@.len() as int) =~= self.store.channels@);
        top
    }

    /// "standby" | "advisory" | "alert"
    pub fn mode(&self) -> (res: &'static str)
        ensures
            res@ == mode_of(self.chans()),
    {
        let mut i: usize = 0;
        while i < self.store.channels.len()
            invariant
                i <= self.store.channels@.len(),
                forall|k: int| 0 <= k < i ==> !fullscreen_of(#[trigger] self.store.channels@[k]),
            decreases self.store.channels@.len() - i,
        {
            if self.store.channels[i].is_fullscreen() {
                return "alert";
            }
            i = i + 1;
        }
        let mut j: usize = 0;
        while j < self.store.channels.len()
            invariant
                j <= self.store.channels@.len(),
                forall|k: int| 0 <= k < self.store.channels@.len() ==> !fullscreen_of(
                    #[trigger] self.store.channels@[k],
                ),
                forall|k: int| 0 <= k < j ==> !shown(#[trigger] self.store.channels@[k]),
            decreases self.store.channels@.len() - j,
        {
            if self.store.channels[j].allowed && self.store.channels[j].effective_severity().rank() >= 1 {
                return "advisory";
            }
            j = j + 1;
        }
        "standby"
    }

    /// Full-screen telegrams (警報級以上の表示対象), by display priority
    /// (国民保護＞緊急地震速報＞津波＞火山…), then display level, then most
    /// recent.
    pub fn alerts(&self) -> (res: Vec<&AlertChannel>)
        ensures
            derefs(res@) == alert_order(self.chans()),
            derefs(res@).to_multiset() == fullscreen_list(self.chans()).to_multiset(),
            forall|i: int, j: int|
                0 <= i < j < res@.len() ==> alert_ge(*#[trigger] res@[i], *#[trigger] res@[j]),
    {
        broadcast use vstd::seq_lib::group_to_multiset_ensures;

        let mut v: Vec<&AlertChannel> = Vec::new();
        let mut i: usize = 0;
        assert(derefs(v@) =~= Seq::<AlertChannel>::empty());
        assert(self.store.channels@.take(0) =~= Seq::<AlertChannel>::empty());
        while i < self.store.channels.len()
            invariant
                i <= self.store.channels@.len(),
                derefs(v@).to_multiset() == fullscreen_list(self.store.channels@.take(i as int)).to_multiset(),
                derefs(v@) == alert_order(self.store.channels@.take(i as int)),
                forall|p: int, q: int|
                    0 <= p < q < v@.len() ==> alert_ge(*#[trigger] v@[p], *#[trigger] v@[q]),
            decreases self.store.channels@.len() - i,
        {
            let ghost pre = self.store.channels@.take(i as int);
            assert(self.store.channels@.take(i + 1).drop_last() =~= pre);
            assert(self.store.channels@.take(i + 1).last() == self.store.channels@[i as int]);
            let c = &self.store.channels[i];
            if c.is_fullscreen() {
                let mut p: usize = 0;
                while p < v.len() && alert_ge_exec(v[p], c)
                    invariant
                        p <= v@.len(),
                        forall|q: int| 0 <= q < p ==> alert_ge(*#[trigger] v@[q], *c),
                        insert_pos(derefs(v@), *c, 0) == insert_pos(derefs(v@), *c, p as int),
                    decreases v@.len() - p,
                {
                    assert(derefs(v@)[p as int] == *v@[p as int]);
                    p = p + 1;
                }
                proof {
                    if p < v@.len() {
                        assert(derefs(v@)[p as int] == *v@[p as int]);
                    }
                    assert(insert_pos(derefs(v@), *c, 0) == p);
                }
                let ghost old_v = v@;
                v.insert(p, c);
                assert(derefs(v@) =~= derefs(old_v).insert(p as int, *c));
                assert(derefs(v@) == alert_order(self.store.channels@.take(i + 1)));
                proof {
                    vstd::seq_lib::to_multiset_insert(derefs(old_v), p as int, *c);
                    vstd::seq_lib::to_multiset_build(fullscreen_list(pre), *c);
                    assert(fullscreen_list(self.store.channels@.take(i + 1)) == fullscreen_list(pre).push(
                        *c,
                    ));
                }
                assert forall|a: int, b: int| 0 <= a < b < v@.len() implies alert_ge(
                    *#[trigger] v@[a],
                    *#[trigger] v@[b],
                ) by {
                    if b < p {
                        assert(v@[a] == old_v[a] && v@[b] == old_v[b]);
                    } else if b == p {
                        assert(v@[a] == old_v[a]);
                    } else if a < p {
                        assert(v@[a] == old_v[a] && v@[b] == old_v[b - 1]);
                        assert(alert_ge(*old_v[p as int], *old_v[b - 1]) || p == b - 1);
                    } else if a == p {
                        assert(v@[b] == old_v[b - 1]);
                        assert(alert_ge(*old_v[p as int], *old_v[b - 1]) || p == b - 1);
                    } else {
                        assert(v@[a] == old_v[a - 1] && v@[b] == old_v[b - 1]);
                    }
                }
            }
            i = i + 1;
        }
        assert(self.store.channels@.take(self.store.channels@.len() as int) =~= self.store.channels@);
        v
    }

    /// Banner-level telegrams (表示対象だが全画面化しないもの), newest first.
    pub fn advisories(&self) -> (res: Vec<&AlertChannel>)
        ensures
            derefs(res@) == banner_order(self.chans()),
            derefs(res@).to_multiset() == banner_list(self.chans()).to_multiset(),
            forall|i: int, j: int|
                0 <= i < j < res@.len() ==> (*#[trigger] res@[i]).rx_time_ms >= (
                *#[trigger] res@[j]).rx_time_ms,
    {
        broadcast use vstd::seq_lib::group_to_multiset_ensures;

        let mut v: Vec<&AlertChannel> = Vec::new();
        let mut i: usize = 0;
        assert(derefs(v@) =~= Seq::<AlertChannel>::empty());
        assert(self.store.channels@.take(0) =~= Seq::<AlertChannel>::empty());
        while i < self.store.channels.len()
            invariant
                i <= self.store.channels@.len(),
                derefs(v@).to_multiset() == banner_list(self.store.channels@.take(i as int)).to_multiset(),
                derefs(v@) == banner_order(self.store.channels@.take(i as int)),
                forall|p: int, q: int|
                    0 <= p < q < v@.len() ==> (*#[trigger] v@[p]).rx_time_ms >= (
                    *#[trigger] v@[q]).rx_time_ms,
            decreases self.store.channels@.len() - i,
        {
            let ghost pre = self.store.channels@.take(i as int);
            assert(self.store.channels@.take(i + 1).drop_last() =~= pre);
            assert(self.store.channels@.take(i + 1).last() == self.store.channels@[i as int]);
            let c = &self.store.channels[i];
            if c.allowed && !c.is_fullscreen() && c.effective_severity().rank() >= 1 {
                let mut p: usize = 0;
                while p < v.len() && v[p].rx_time_ms >= c.rx_time_ms
                    invariant
                        p <= v@.len(),
                        forall|q: int| 0 <= q < p ==> (*#[trigger] v@[q]).rx_time_ms >= c.rx_time_ms,
                        banner_pos(derefs(v@), *c, 0) == banner_pos(derefs(v@), *c, p as int),
                    decreases v@.len() - p,
                {
                    assert(derefs(v@)[p as int] == *v@[p as int]);
                    p = p + 1;
                }
                proof {
                    if p < v@.len() {
                        assert(derefs(v@)[p as int] == *v@[p as int]);
                    }
                    assert(banner_pos(derefs(v@), *c, 0) == p);
                }
                let ghost old_v = v@;
                v.insert(p, c);
                assert(derefs(v@) =~= derefs(old_v).insert(p as int, *c));
                assert(derefs(v@) == banner_order(self.store.channels@.take(i + 1)));
                proof {
                    vstd::seq_lib::to_multiset_insert(derefs(old_v), p as int, *c);
                    vstd::seq_lib::to_multiset_build(banner_list(pre), *c);
                    assert(banner_list(self.store.channels@.take(i + 1)) == banner_list(pre).push(*c));
                }
                assert forall|a: int, b: int| 0 <= a < b < v@.len() implies (
                *#[trigger] v@[a]).rx_time_ms >= (*#[trigger] v@[b]).rx_time_ms by {
                    if b < p {
                        assert(v@[a] == old_v[a] && v@[b] == old_v[b]);
                    } else if b == p {
                        assert(v@[a] == old_v[a]);
                    } else if a < p {
                        assert(v@[a] == old_v[a] && v@[b] == old_v[b - 1]);
                    } else if a == p {
                        assert(v@[b] == old_v[b - 1]);
                        assert((*old_v[p as int]).rx_time_ms >= (*old_v[b - 1]).rx_time_ms || p == b
                            - 1);
                    } else {
                        assert(v@[a] == old_v[a - 1] && v@[b] == old_v[b - 1]);
                    }
                }
            }
            i = i + 1;
        }
        assert(self.store.channels@.take(self.store.channels@.len() as int) =~= self.store.channels@);
        v
    }


    /// The alert that leads the full-screen display: the first of
    /// [`AppState::alerts`].
    pub fn primary(&self) -> (res: Option<&AlertChannel>)
        ensures
            res is None <==> fullscreen_list(self.chans()).len() == 0,
            res matches Some(c) ==> *c == alert_order(self.chans())[0],
            res matches Some(c) ==> fullscreen_list(self.chans()).contains(*c) && forall|d: AlertChannel|
                #[trigger] fullscreen_list(self.chans()).contains(d) ==> alert_ge(*c, d),
    {
        broadcast use vstd::seq_lib::group_to_multiset_ensures;

        let v = self.alerts();
        proof {
            let f = fullscreen_list(self.chans());
            assert(derefs(v@).len() == v@.len());
            assert(derefs(v@).to_multiset().len() == f.to_multiset().len());
            assert forall|d: AlertChannel| #[trigger] f.contains(d) implies derefs(v@).contains(d) by {
                assert(f.to_multiset().count(d) > 0);
                assert(derefs(v@).to_multiset().count(d) > 0);
            }
            if v@.len() > 0 {
                assert(derefs(v@)[0] == *v@[0]);
                assert(alert_order(self.chans())[0] == *v@[0]);
                assert(derefs(v@).contains(*v@[0]));
                assert(derefs(v@).to_multiset().count(*v@[0]) > 0);
                assert(f.to_multiset().count(*v@[0]) > 0);
                assert forall|d: AlertChannel| #[trigger] f.contains(d) implies alert_ge(*v@[0], d) by {
                    assert(derefs(v@).contains(d));
                    let j = choose|j: int| 0 <= j < derefs(v@).len() && derefs(v@)[j] == d;
                    if j > 0 {
                        assert(alert_ge(*v@[0], *v@[j]));
                    }
                }
            }
        }
        if v.len() > 0 {
            Some(v[0])
        } else {
            None
        }
    }

    /// Which standby category lamps are currently lit, each once.
    pub fn active_lamps(&self) -> (res: Vec<LampGroup>)
        ensures
            res@ == lamps_upto(self.chans(), self.chans().len() as int),
    {
        let mut v: Vec<LampGroup> = Vec::new();
        let mut i: usize = 0;
        while i < self.store.channels.len()
            invariant
                i <= self.store.channels@.len(),
                v@ == lamps_upto(self.store.channels@, i as int),
            decreases self.store.channels@.len() - i,
        {
            let c = &self.store.channels[i];
            if c.allowed && c.effective_severity().rank() >= 1 {
                match c.category.lamp_group() {
                    Some(g) => {
                        let mut k: usize = 0;
                        let mut found = false;
                        while k < v.len()
                            invariant
                                k <= v@.len(),
                                found <==> exists|t: int| 0 <= t < k && v@[t] == g,
                            decreases v@.len() - k,
                        {
                            if v[k] == g {
                                found = true;
                            }
                            k = k + 1;
                        }
                        if !found {
                            v.push(g);
                        }
                    },
                    None => {},
                }
            }
            i = i + 1;
        }
        v
    }

    /// Mailbox history (緊急情報一覧), newest first.
    pub fn inbox(&self) -> (res: Vec<&InboxItem>)
        ensures
            res@.len() == self.hist().len(),
            forall|i: int|
                0 <= i < res@.len() ==> (*#[trigger] res@[i])@ == self.hist()[self.hist().len() - 1 - i],
    {
        let mut v: Vec<&InboxItem> = Vec::new();
        let n = self.store.history.len();
        let mut i: usize = 0;
        while i < n
            invariant
                n == self.store.history@.len(),
                i <= n,
                v@.len() == i,
                forall|k: int| 0 <= k < i ==> *#[trigger] v@[k] == self.store.history@[n - 1 - k],
            decreases n - i,
        {
            v.push(&self.store.history[n - 1 - i]);
            i = i + 1;
        }
        v
    }

    /// The number of unread mailbox items.
    pub fn unread(&self) -> (res: usize)
        ensures
            res == unread_count(self.hist()),
    {
        let mut count: usize = 0;
        let mut i: usize = 0;
        while i < self.store.history.len()
            invariant
                i <= self.store.history@.len(),
                count == unread_count(item_views(self.store.history@.take(i as int))),
                count <= i,
            decreases self.store.history@.len() - i,
        {
            assert(item_views(self.store.history@.take(i + 1)).drop_last() =~= item_views(
                self.store.history@.take(i as int),
            ));
            if !self.store.history[i].read {
                count = count + 1;
            }
            i = i + 1;
        }
        assert(self.store.history@.take(self.store.history@.len() as int) =~= self.store.history@);
        count
    }

    /// The mailbox item with id `id`.
    /// The mailbox items, oldest first.
    pub fn items(&self) -> (res: &Vec<InboxItem>)
        ensures
            item_views(res@) == self.hist(),
    {
        &self.store.history
    }

    /// The live channels, in the order they were first stored.
    pub fn channels(&self) -> (res: &Vec<AlertChannel>)
        ensures
            res@ == self.chans(),
    {
        &self.store.channels
    }

    /// The id the next new mailbox item gets.
    pub fn next_id(&self) -> (res: u64)
        ensures
            res == self.next(),
    {
        self.store.next_id
    }

    pub fn item(&self, id: u64) -> (res: Option<&InboxItem>)
        ensures
            match id_index(self.hist(), id, 0) {
                Some(i) => res matches Some(it) && it@ == self.hist()[i],
                None => res is None,
            },
    {
        let mut i: usize = 0;
        while i < self.store.history.len()
            invariant
                i <= self.store.history@.len(),
                id_index(self.hist(), id, 0) == id_index(self.hist(), id, i as int),
            decreases self.store.history@.len() - i,
        {
            if self.store.history[i].id == id {
                return Some(&self.store.history[i]);
            }
            i = i + 1;
        }
        None
    }

    /// Marks the item with id `id` read (or unread).
    pub fn mark_read(&mut self, id: u64, read: bool)
        requires
            old(self).inv(),
        ensures
            final(self).inv(),
            final(self).hist() == marked(old(self).hist(), id, read),
            same_but_mailbox(*final(self), *old(self)),
            id_index(old(self).hist(), id, 0) is None ==> *final(self) == *old(self),
    {
        let mut i: usize = 0;
        while i < self.store.history.len()
            invariant
                i <= self.store.history@.len(),
                *self == *old(self),
                self.inv(),
                id_index(self.hist(), id, 0) == id_index(self.hist(), id, i as int),
            decreases self.store.history@.len() - i,
        {
            if self.store.history[i].id == id {
                let ghost old_h = self.store.history@;
                let mut it = copy_item(&self.store.history[i]);
                it.read = read;
                self.store.history.set(i, it);
                assert(self.hist() =~= item_views(old_h).update(
                    i as int,
                    InboxView { read: read, ..item_views(old_h)[i as int] },
                ));
                assert forall|p: int, q: int| 0 <= p < q < self.store.history@.len() implies #[trigger] self.store.history@[p].id
                    < #[trigger] self.store.history@[q].id by {
                    assert(self.store.history@[p].id == old_h[p].id);
                    assert(self.store.history@[q].id == old_h[q].id);
                }
                assert forall|p: int| 0 <= p < self.store.history@.len() implies #[trigger] self.store.history@[p].id
                    < self.store.next_id by {
                    assert(self.store.history@[p].id == old_h[p].id);
                }
                return ;
            }
            i = i + 1;
        }
    }

    /// Marks every mailbox item read.
    pub fn mark_all_read(&mut self)
        requires
            old(self).inv(),
        ensures
            final(self).inv(),
            final(self).hist() == all_read(old(self).hist()),
            same_but_mailbox(*final(self), *old(self)),
    {
        let ghost old_h = self.store.history@;
        let mut i: usize = 0;
        while i < self.store.history.len()
            invariant
                i <= self.store.history@.len(),
                self.store.history@.len() == old_h.len(),
                same_but_mailbox(*self, *old(self)),
                old_h == old(self).store.history@,
                forall|k: int|
                    0 <= k < i ==> #[trigger] self.store.history@[k]@ == (InboxView { read: true, ..old_h[k]@ }),
                forall|k: int| i <= k < self.store.history@.len() ==> #[trigger] self.store.history@[k] == old_h[k],
            decreases self.store.history@.len() - i,
        {
            let mut it = copy_item(&self.store.history[i]);
            it.read = true;
            self.store.history.set(i, it);
            i = i + 1;
        }
        proof {
            assert forall|p: int, q: int| 0 <= p < q < self.store.history@.len() implies #[trigger] self.store.history@[p].id
                < #[trigger] self.store.history@[q].id by {
                assert(self.store.history@[p]@.id == old_h[p]@.id);
                assert(self.store.history@[q]@.id == old_h[q]@.id);
            }
            assert forall|p: int| 0 <= p < self.store.history@.len() implies #[trigger] self.store.history@[p].id
                < self.store.next_id by {
                assert(self.store.history@[p]@.id == old_h[p]@.id);
            }
            assert forall|k: int| 0 <= k < self.hist().len() implies #[trigger] self.hist()[k] == InboxView {
                read: true,
                ..old(self).hist()[k]
            } by {
                assert(self.hist()[k] == self.store.history@[k]@);
            }
            assert(self.hist() =~= all_read(old(self).hist()));
        }
    }

    /// Per-telegram-type received counts, ordered like [`default_rules`]: each
    /// type where its first rule stands (JALT, EPRQ, ISSW, VOLC, IFDA, IOEQ,
    /// WRMA), then unknown codes.
    pub fn type_counts(&self) -> (res: Vec<(AlertType, u64)>)
        ensures
            res@.len() == 8,
            forall|i: int| 0 <= i < 8 ==> #[trigger] res@[i] == (type_at(i), self.counts()[i]),
    {
        let mut v: Vec<(AlertType, u64)> = Vec::new();
        v.push((AlertType::Jalt, self.store.type_counts[0]));
        v.push((AlertType::Eprq, self.store.type_counts[1]));
        v.push((AlertType::Issw, self.store.type_counts[2]));
        v.push((AlertType::Volc, self.store.type_counts[3]));
        v.push((AlertType::Ifda, self.store.type_counts[4]));
        v.push((AlertType::Ioeq, self.store.type_counts[5]));
        v.push((AlertType::Wrma, self.store.type_counts[6]));
        v.push((AlertType::Unknown, self.store.type_counts[7]));
        v
    }

    /// Clear all live alert channels (手動発報の全解除). History is kept.
    pub fn clear_alerts(&mut self)
        requires
            old(self).inv(),
        ensures
            final(self).inv(),
            final(self).chans().len() == 0,
            final(self).hist() == old(self).hist(),
            final(self).next() == old(self).next(),
            final(self).receiver == old(self).receiver,
            final(self).rules == old(self).rules,
            final(self).cwsd == old(self).cwsd,
            final(self).connect_test == old(self).connect_test,
            final(self).last_sat_ms == old(self).last_sat_ms,
            final(self).last_terr_ms == old(self).last_terr_ms,
            final(self).counts() == old(self).counts(),
    {
        self.store.channels = Vec::new();
    }


    /// Applies one decoded telegram received now (see [`AppState::ingest_at`]).
    pub fn ingest(&mut self, ch: AlertChannel)
        requires
            old(self).inv(),
            old(self).has_room_spec(),
        ensures
            final(self).inv(),
            ingested(*old(self), *final(self), ch, final(self).receiver.last_line_ms),
    {
        let now = now_millis();
        self.ingest_at(ch, now);
    }

    /// Classifies one JSONL line and, when it carries a usable telegram,
    /// applies it; returns whether it did.
    pub fn ingest_line(&mut self, line: &str) -> (res: bool)
        requires
            old(self).inv(),
            old(self).has_room_spec(),
        ensures
            final(self).inv(),
            res == line_channel(line@) is Some,
            !res ==> *final(self) == *old(self),
            res ==> exists|c: AlertChannel|
                Some(c@) == line_channel(line@) && ingested(
                    *old(self),
                    *final(self),
                    c,
                    final(self).receiver.last_line_ms,
                ),
    {
        match from_json_line(line) {
            Some(ch) => {
                let ghost c = ch;
                self.ingest(ch);
                assert(Some(c@) == line_channel(line@));
                true
            },
            None => false,
        }
    }

    /// Inject a manually raised alert (管理画面の手動発報) for a category and
    /// area, received now, and ingest it like a received one.
    pub fn inject_manual(
        &mut self,
        alert_type: AlertType,
        category: Category,
        area: String,
        sub_type: String,
        headline: String,
    )
        requires
            old(self).inv(),
            old(self).has_room_spec(),
        ensures
            final(self).inv(),
            exists|c: AlertChannel|
                c@ == manual_view(alert_type, category, area@, sub_type@, headline@, c.rx_time_ms)
                    && ingested(*old(self), *final(self), c, final(self).receiver.last_line_ms),
    {
        let rx = now_millis();
        let ch = manual_channel(alert_type, category, area, sub_type, headline, rx);
        self.ingest(ch);
    }

    /// Run a (simulated) 接続テスト at `now_ms`: there is no WAN/satellite
    /// uplink, so it reports the state of the local feed.
    pub fn run_connect_test_at(&mut self, now_ms: i64)
        ensures
            final(self).connect_test matches Some(r) && r.at_ms == now_ms && r.ok
                == old(self).receiver.connected && r.message@ == connect_message(
                old(self).receiver.connected,
                old(self).receiver.source@,
            ),
            *final(self) == (AppState { connect_test: final(self).connect_test, ..*old(self) }),
    {
        let ok = self.receiver.connected;
        let mut message = concat2("受信元 ", self.receiver.source.as_str());
        if ok {
            message.append(" と接続できています（SDR# プラグイン）。");
        } else {
            message.append(" へ接続できません。プラグインの起動を確認してください。");
        }
        self.connect_test = Some(ConnectTestResult { at_ms: now_ms, ok, message });
    }

    /// Run a (simulated) 接続テスト now.
    pub fn run_connect_test(&mut self)
        ensures
            final(self).connect_test matches Some(r) && r.ok == old(self).receiver.connected
                && r.message@ == connect_message(
                old(self).receiver.connected,
                old(self).receiver.source@,
            ),
            *final(self) == (AppState { connect_test: final(self).connect_test, ..*old(self) }),
    {
        let now = now_millis();
        self.run_connect_test_at(now);
    }

    /// No counter is at its limit, so one more line can be counted.
    pub fn has_room(&self) -> (res: bool)
        ensures
            res == self.has_room_spec(),
    {
        if self.receiver.total_lines == u64::MAX || self.store.next_id == u64::MAX {
            return false;
        }
        let mut i: usize = 0;
        while i < 8
            invariant
                i <= 8,
                forall|k: int| 0 <= k < i ==> #[trigger] self.store.type_counts@[k] < u64::MAX,
            decreases 8 - i,
        {
            if self.store.type_counts[i] == u64::MAX {
                assert(self.counts()[i as int] == u64::MAX);
                return false;
            }
            i = i + 1;
        }
        assert forall|k: int| 0 <= k < 8 implies #[trigger] self.counts()[k] < u64::MAX by {
            assert(self.store.type_counts@[k] < u64::MAX);
        }
        true
    }
}

/// The connection-test message for a feed `source` that is or is not
/// connected.
pub open spec fn connect_message(ok: bool, source: Seq<char>) -> Seq<char> {
    if ok {
        "受信元 "@ + source + " と接続できています（SDR# プラグイン）。"@
    } else {
        "受信元 "@ + source + " へ接続できません。プラグインの起動を確認してください。"@
    }
}

/// The channel a manually raised alert is: announced (発表), keyed by its
/// category and area, with the area as head title and area name, and graded
/// 警報 when it is weather.
pub open spec fn manual_view(
    alert_type: AlertType,
    category: Category,
    area: Seq<char>,
    sub_type: Seq<char>,
    headline: Seq<char>,
    rx_time_ms: i64,
) -> ChannelView {
    ChannelView {
        key: category_label(category) + "|"@ + area,
        alert_type: alert_type,
        category: category,
        allowed: true,
        title: Seq::empty(),
        head_title: area,
        area_name: area,
        sub_type: sub_type,
        info_type: "発表"@,
        headline: headline,
        report_time: Seq::empty(),
        packet_time: Seq::empty(),
        rx_time_ms: rx_time_ms,
        channel: RxChannel::Unknown,
        severity: if category == Category::Weather {
            Severity::Warning
        } else {
            Severity::Clear
        },
        kinds: Seq::empty(),
        areas: Seq::empty(),
        xml: Seq::empty(),
    }
}

/// The channel of a manually raised alert (管理画面の手動発報) for the chosen
/// 情報種別 and area, received at `rx_time_ms`.
pub fn manual_channel(
    alert_type: AlertType,
    category: Category,
    area: String,
    sub_type: String,
    headline: String,
    rx_time_ms: i64,
) -> (res: AlertChannel)
    ensures
        res@ == manual_view(alert_type, category, area@, sub_type@, headline@, rx_time_ms),
{
    let severity = if category == Category::Weather {
        Severity::Warning
    } else {
        Severity::Clear
    };
    let key = concat2(concat2(category.label(), "|").as_str(), area.as_str());
    let ch = AlertChannel {
        key,
        alert_type,
        category,
        allowed: true,
        title: String::new(),
        head_title: area.clone(),
        area_name: area,
        sub_type,
        info_type: "発表".to_owned(),
        headline,
        report_time: String::new(),
        packet_time: String::new(),
        rx_time_ms,
        channel: RxChannel::Unknown,
        severity,
        kinds: Vec::new(),
        areas: Vec::new(),
        xml: String::new(),
    };
    assert(ch@ =~= manual_view(alert_type, category, area@, sub_type@, headline@, rx_time_ms));
    ch
}

impl Default for AppState {
    /// A fresh state with an empty source name.
    fn default() -> (res: Self)
        ensures
            res.inv(),
            res.has_room_spec(),
            res.chans().len() == 0,
            res.hist().len() == 0,
            res.receiver.source@.len() == 0,
            res.rules@.len() == 10,
            forall|i: int| 0 <= i < 10 ==> rule_tuple(#[trigger] res.rules@[i]) == seed_rule(i),
    {
        AppState::new(String::new())
    }
}


// ---------------------------------------------------------------------------
// Laws of the state store
// ---------------------------------------------------------------------------

/// A cancellation clears its channel: once a report whose display level is
/// Clear has come in, no channel holds its key.
pub proof fn law_cancel_clears_channel(
    before: AppState,
    after: AppState,
    ch: AlertChannel,
    now_ms: i64,
)
    requires
        before.inv(),
        ingested(before, after, ch, now_ms),
        effective_of(ch) == Severity::Clear,
    ensures
        key_index(after.chans(), ch.key@, 0) is None,
{
    let c = as_allowed(before.rules@, ch);
    assert(effective_of(c) == effective_of(ch));
    let b = before.chans();
    let a = after.chans();
    lemma_key_index(b, ch.key@, 0);
    lemma_key_index(a, ch.key@, 0);
    if let Some(i) = key_index(b, ch.key@, 0) {
        assert(a == b.remove(i));
        if let Some(k) = key_index(a, ch.key@, 0) {
            let kk = if k < i {
                k
            } else {
                k + 1
            };
            assert(a[k] == b[kk]);
            if kk < i {
                assert(b[kk].key@ != b[i].key@);
            } else {
                assert(b[i].key@ != b[kk].key@);
            }
        }
    }
}

/// A newer report supersedes its channel: after a report that is not a
/// cancellation, the channel of its key is that report (with the `allowed`
/// flag its display rule gives), and a channel is added only for a new key.
pub proof fn law_report_supersedes(before: AppState, after: AppState, ch: AlertChannel, now_ms: i64)
    requires
        before.inv(),
        ingested(before, after, ch, now_ms),
        effective_of(ch) != Severity::Clear,
    ensures
        key_index(after.chans(), ch.key@, 0) matches Some(i) && after.chans()[i] == as_allowed(
            before.rules@,
            ch,
        ),
        after.chans().len() == before.chans().len() + if key_index(before.chans(), ch.key@, 0) is None {
            1int
        } else {
            0int
        },
{
    let c = as_allowed(before.rules@, ch);
    assert(effective_of(c) == effective_of(ch));
    let b = before.chans();
    let a = after.chans();
    lemma_key_index(b, ch.key@, 0);
    lemma_key_index(a, ch.key@, 0);
    let i = match key_index(b, ch.key@, 0) {
        Some(i) => i,
        None => b.len() as int,
    };
    assert(a[i] == c);
    assert forall|j: int| 0 <= j < i implies a[j].key@ != ch.key@ by {
        assert(a[j] == b[j]);
    }
    if let Some(k) = key_index(a, ch.key@, 0) {
        if k < i {
            assert(a[k].key@ != ch.key@);
        }
        if k > i {
            assert(a[i].key@ == ch.key@);
        }
        assert(k == i);
    }
}

/// Retransmits collapse: a report that comes in again right after itself
/// adds no mailbox item and takes no new id.
pub proof fn law_retransmit_collapses(
    s0: AppState,
    s1: AppState,
    s2: AppState,
    ch: AlertChannel,
    t1: i64,
    t2: i64,
)
    requires
        s0.inv(),
        ingested(s0, s1, ch, t1),
        ingested(s1, s2, ch, t2),
    ensures
        s2.hist().len() == s1.hist().len(),
        s2.next() == s1.next(),
{
    let c = as_allowed(s0.rules@, ch);
    assert(as_allowed(s1.rules@, ch) == c);
    assert(effective_of(c) == effective_of(ch));
    let h0 = s0.hist();
    let h1 = s1.hist();
    let n0 = h0.len() as int;
    let n1 = h1.len() as int;
    if is_repeat(h0, c) {
        let i = last_same_source(h0, c.head_title@, c.category, n0)->0;
        lemma_last_same_source(h0, c.head_title@, c.category, n0);
        assert(h1 == h0.update(
            i,
            InboxView { rx_time_ms: c.rx_time_ms, packet_time: c.packet_time@, channel: c.channel, ..h0[i] },
        ));
        lemma_same_sources(h0, h1, c.head_title@, c.category, n0);
        assert(is_repeat(h1, c));
    } else {
        let p = h0.push(new_item(c, s0.next()));
        assert(h1 == capped(p));
        assert(h1.len() >= 1);
        assert(h1[n1 - 1] == new_item(c, s0.next()));
        assert(last_same_source(h1, c.head_title@, c.category, n1) == Some(n1 - 1));
        assert(is_repeat(h1, c));
    }
}

/// Every report is recorded in the mailbox, whether or not it reaches the
/// screen: it refreshes the item it repeats, or it becomes the newest item,
/// unread, under the next id.
pub proof fn law_report_recorded(before: AppState, after: AppState, ch: AlertChannel, now_ms: i64)
    requires
        before.inv(),
        ingested(before, after, ch, now_ms),
    ensures
        is_repeat(before.hist(), as_allowed(before.rules@, ch)) || (after.hist().len() > 0
            && after.hist().last() == new_item(as_allowed(before.rules@, ch), before.next())),
{
    let c = as_allowed(before.rules@, ch);
    if !is_repeat(before.hist(), c) {
        let p = before.hist().push(new_item(c, before.next()));
        assert(after.hist() == capped(p));
        assert(after.hist().last() == p.last());
    }
}

/// Display is on for everything by default: under the seed rules the
/// reports of every category may reach the screen.
pub proof fn law_display_on_by_default(rules: Seq<InterfaceRule>, c: Category)
    requires
        rules.len() == 10,
        forall|i: int| 0 <= i < 10 ==> rule_tuple(#[trigger] rules[i]) == seed_rule(i),
    ensures
        display_allowed(rules, c, 0),
{
    assert forall|k: int| 0 <= k < rules.len() implies (#[trigger] rules[k]).display by {
        assert(rule_tuple(rules[k]) == seed_rule(k));
    }
    lemma_all_display(rules, c, 0);
}

/// With every display flag on, every category may reach the screen.
proof fn lemma_all_display(rules: Seq<InterfaceRule>, c: Category, i: int)
    requires
        0 <= i,
        forall|k: int| 0 <= k < rules.len() ==> (#[trigger] rules[k]).display,
    ensures
        display_allowed(rules, c, i),
    decreases rules.len() - i,
{
    if i < rules.len() && rules[i].category != c {
        lemma_all_display(rules, c, i + 1);
    }
}

/// The total of the per-type counters.
pub open spec fn counts_total(c: Seq<u64>) -> int {
    c[0] + c[1] + c[2] + c[3] + c[4] + c[5] + c[6] + c[7]
}

/// The per-type counters keep pace with the received lines: every report
/// adds one to exactly one counter and one to the total, so counters and
/// total, both zero in a fresh state, always agree.
pub proof fn law_counts_track_lines(before: AppState, after: AppState, ch: AlertChannel, now_ms: i64)
    requires
        before.has_room_spec(),
        ingested(before, after, ch, now_ms),
    ensures
        counts_total(after.counts()) == counts_total(before.counts()) + 1,
        after.receiver.total_lines == before.receiver.total_lines + 1,
        counts_total(after.counts()) - after.receiver.total_lines == counts_total(before.counts())
            - before.receiver.total_lines,
{
    let k = type_slot(ch.alert_type);
    let b = before.counts();
    let a = after.counts();
    assert(b.len() == 8);
    assert(b[k] < u64::MAX);
    assert(a[k] == b[k] + 1);
    assert forall|j: int| 0 <= j < 8 && j != k implies a[j] == b[j] by {}
    assert(a[0] + a[1] + a[2] + a[3] + a[4] + a[5] + a[6] + a[7] == b[0] + b[1] + b[2] + b[3] + b[4]
        + b[5] + b[6] + b[7] + 1) by {
        assert(a[0] == b[0] || k == 0);
        assert(a[1] == b[1] || k == 1);
        assert(a[2] == b[2] || k == 2);
        assert(a[3] == b[3] || k == 3);
        assert(a[4] == b[4] || k == 4);
        assert(a[5] == b[5] || k == 5);
        assert(a[6] == b[6] || k == 6);
        assert(a[7] == b[7] || k == 7);
    }
}

/// The number of reports of type `t` in a run of reports.
pub open spec fn type_tally(chs: Seq<AlertChannel>, t: AlertType) -> nat
    decreases chs.len(),
{
    if chs.len() == 0 {
        0
    } else {
        type_tally(chs.drop_last(), t) + if chs.last().alert_type == t {
            1nat
        } else {
            0nat
        }
    }
}

/// Over any run of reports, each telegram type's counter grows by the
/// number of reports of that type, and [`AppState::type_counts`] lists it
/// with that type; from a fresh state (all counters zero) the counter is
/// exactly that number.
pub proof fn law_counts_over_run(
    states: Seq<AppState>,
    chs: Seq<AlertChannel>,
    times: Seq<i64>,
    t: AlertType,
)
    requires
        states.len() == chs.len() + 1,
        times.len() == chs.len(),
        forall|i: int| 0 <= i < chs.len() ==> (#[trigger] states[i]).has_room_spec(),
        forall|i: int|
            0 <= i < chs.len() ==> #[trigger] ingested(states[i], states[i + 1], chs[i], times[i]),
    ensures
        0 <= type_slot(t) < 8,
        type_at(type_slot(t)) == t,
        states.last().counts()[type_slot(t)] == states[0].counts()[type_slot(t)] + type_tally(chs, t),
        (forall|k: int| 0 <= k < 8 ==> #[trigger] states[0].counts()[k] == 0) ==> states.last().counts()[type_slot(
            t,
        )] == type_tally(chs, t),
    decreases chs.len(),
{
    let k = type_slot(t);
    if chs.len() > 0 {
        let n = chs.len() - 1;
        let s2 = states.drop_last();
        let c2 = chs.drop_last();
        let t2 = times.drop_last();
        assert forall|i: int| 0 <= i < c2.len() implies (#[trigger] s2[i]).has_room_spec() by {
            assert(s2[i] == states[i]);
        }
        assert forall|i: int| 0 <= i < c2.len() implies #[trigger] ingested(
            s2[i],
            s2[i + 1],
            c2[i],
            t2[i],
        ) by {
            assert(s2[i] == states[i] && s2[i + 1] == states[i + 1]);
            assert(c2[i] == chs[i] && t2[i] == times[i]);
            assert(ingested(states[i], states[i + 1], chs[i], times[i]));
        }
        law_counts_over_run(s2, c2, t2, t);
        assert(ingested(states[n], states[n + 1], chs[n], times[n]));
        assert(states[n].has_room_spec());
        let b = states[n].counts();
        let j = type_slot(chs[n].alert_type);
        assert(b[j] < u64::MAX);
        assert(c2 == chs.drop_last());
        if chs[n].alert_type == t {
            assert(states.last().counts()[k] == b[k] + 1);
        } else {
            assert(j != k);
            assert(states.last().counts()[k] == b[k]);
        }
    }
}

/// `last_same_source` reads only the head titles and categories.
proof fn lemma_same_sources(
    h: Seq<InboxView>,
    g: Seq<InboxView>,
    head: Seq<char>,
    cat: Category,
    n: int,
)
    requires
        h.len() == g.len(),
        0 <= n <= h.len(),
        forall|k: int|
            0 <= k < h.len() ==> (#[trigger] h[k]).head_title == g[k].head_title && h[k].category
                == g[k].category,
    ensures
        last_same_source(h, head, cat, n) == last_same_source(g, head, cat, n),
    decreases n,
{
    if n > 0 {
        assert(h[n - 1].head_title == g[n - 1].head_title && h[n - 1].category == g[n - 1].category);
        lemma_same_sources(h, g, head, cat, n - 1);
    }
}

/// A stored channel is one of the old channels or the new report.
proof fn lemma_stored_from(chans: Seq<AlertChannel>, c: AlertChannel, k: int)
    requires
        0 <= k < stored(chans, c).len(),
    ensures
        stored(chans, c)[k] == c || exists|j: int|
            0 <= j < chans.len() && #[trigger] chans[j] == stored(chans, c)[k],
{
    lemma_key_index(chans, c.key@, 0);
    let a = stored(chans, c);
    match key_index(chans, c.key@, 0) {
        Some(i) => {
            if effective_of(c) == Severity::Clear {
                let kk = if k < i {
                    k
                } else {
                    k + 1
                };
                assert(a[k] == chans[kk]);
            } else if k != i {
                assert(a[k] == chans[k]);
            }
        },
        None => {
            if k < chans.len() {
                assert(a[k] == chans[k]);
            }
        },
    }
}

/// The report is among the stored channels unless it is a cancellation.
proof fn lemma_stored_has(chans: Seq<AlertChannel>, c: AlertChannel)
    requires
        effective_of(c) != Severity::Clear,
    ensures
        exists|k: int| 0 <= k < stored(chans, c).len() && #[trigger] stored(chans, c)[k] == c,
{
    lemma_key_index(chans, c.key@, 0);
    match key_index(chans, c.key@, 0) {
        Some(i) => assert(stored(chans, c)[i] == c),
        None => assert(stored(chans, c)[chans.len() as int] == c),
    }
}

/// A category whose display rule is off never reaches the kiosk: its report
/// neither takes over the screen nor shows as a banner, and a kiosk on
/// standby stays on standby.
pub proof fn law_display_off_stays_off(
    before: AppState,
    after: AppState,
    ch: AlertChannel,
    now_ms: i64,
)
    requires
        before.inv(),
        ingested(before, after, ch, now_ms),
        !display_allowed(before.rules@, ch.category, 0),
    ensures
        !shown(as_allowed(before.rules@, ch)),
        !fullscreen_of(as_allowed(before.rules@, ch)),
        mode_of(before.chans()) == "standby"@ ==> mode_of(after.chans()) == "standby"@,
{
    let c = as_allowed(before.rules@, ch);
    let b = before.chans();
    let a = after.chans();
    lemma_mode_words();
    if mode_of(b) == "standby"@ {
        assert(!exists|i: int| 0 <= i < b.len() && shown(#[trigger] b[i]));
        assert forall|k: int| 0 <= k < a.len() implies !shown(#[trigger] a[k]) by {
            lemma_stored_from(b, c, k);
            if a[k] != c {
                let j = choose|j: int| 0 <= j < b.len() && #[trigger] b[j] == a[k];
                assert(!shown(b[j]));
            }
        }
        assert forall|k: int| 0 <= k < a.len() implies !fullscreen_of(#[trigger] a[k]) by {
            assert(!shown(a[k]));
        }
    }
}

/// An urgent report takes over the screen: once a report of 警報級 or more
/// whose display rule is on has come in, the kiosk is in alert mode and has
/// a primary alert.
pub proof fn law_urgent_takes_over(before: AppState, after: AppState, ch: AlertChannel, now_ms: i64)
    requires
        before.inv(),
        ingested(before, after, ch, now_ms),
        display_allowed(before.rules@, ch.category, 0),
        level(effective_of(ch)) >= 2,
    ensures
        mode_of(after.chans()) == "alert"@,
        fullscreen_list(after.chans()).len() > 0,
{
    let c = as_allowed(before.rules@, ch);
    assert(effective_of(c) == effective_of(ch));
    assert(fullscreen_of(c));
    lemma_stored_has(before.chans(), c);
    let k = choose|k: int| 0 <= k < after.chans().len() && #[trigger] after.chans()[k] == c;
    assert(fullscreen_of(after.chans()[k]));
    law_alert_mode_has_primary(after.chans());
}

/// The kiosk is in alert mode exactly when there is a full-screen alert to
/// show (a primary alert).
pub proof fn law_alert_mode_has_primary(chans: Seq<AlertChannel>)
    ensures
        mode_of(chans) == "alert"@ <==> fullscreen_list(chans).len() > 0,
{
    lemma_mode_words();
    lemma_fullscreen_list(chans);
}

/// The three mode words differ.
proof fn lemma_mode_words()
    ensures
        "alert"@ != "advisory"@,
        "alert"@ != "standby"@,
        "advisory"@ != "standby"@,
{
    reveal_strlit("standby");
    reveal_strlit("alert");
    reveal_strlit("advisory");
    assert("alert"@.len() == 5);
    assert("advisory"@.len() == 8);
    assert("standby"@.len() == 7);
}

/// The full-screen list holds exactly the channels that take over the
/// screen, in channel order.
proof fn lemma_fullscreen_list(chans: Seq<AlertChannel>)
    ensures
        fullscreen_list(chans).len() > 0 <==> exists|i: int|
            0 <= i < chans.len() && fullscreen_of(#[trigger] chans[i]),
    decreases chans.len(),
{
    if chans.len() > 0 {
        let d = chans.drop_last();
        lemma_fullscreen_list(d);
        if exists|i: int| 0 <= i < d.len() && fullscreen_of(#[trigger] d[i]) {
            let i = choose|i: int| 0 <= i < d.len() && fullscreen_of(#[trigger] d[i]);
            assert(chans[i] == d[i]);
        }
        if exists|i: int| 0 <= i < chans.len() && fullscreen_of(#[trigger] chans[i]) {
            let i = choose|i: int| 0 <= i < chans.len() && fullscreen_of(#[trigger] chans[i]);
            if i < chans.len() - 1 {
                assert(d[i] == chans[i]);
            }
        }
    }
}

/// Every channel in the full-screen list takes over the screen.
proof fn lemma_fullscreen_members(chans: Seq<AlertChannel>)
    ensures
        forall|c: AlertChannel| #[trigger] fullscreen_list(chans).contains(c) ==> fullscreen_of(c),
    decreases chans.len(),
{
    if chans.len() > 0 {
        let d = chans.drop_last();
        lemma_fullscreen_members(d);
        let f = fullscreen_list(chans);
        let g = fullscreen_list(d);
        assert forall|c: AlertChannel| #[trigger] f.contains(c) implies fullscreen_of(c) by {
            let j = choose|j: int| 0 <= j < f.len() && f[j] == c;
            if j < g.len() {
                assert(g[j] == c);
                assert(g.contains(c));
            }
        }
    }
}

/// The banner list holds exactly the channels that show as banners.
proof fn lemma_banner_list(chans: Seq<AlertChannel>)
    ensures
        banner_list(chans).len() > 0 <==> exists|i: int|
            0 <= i < chans.len() && is_banner(#[trigger] chans[i]),
        forall|c: AlertChannel| #[trigger] banner_list(chans).contains(c) ==> is_banner(c),
    decreases chans.len(),
{
    if chans.len() > 0 {
        let d = chans.drop_last();
        lemma_banner_list(d);
        let f = banner_list(chans);
        let g = banner_list(d);
        assert forall|c: AlertChannel| #[trigger] f.contains(c) implies is_banner(c) by {
            let j = choose|j: int| 0 <= j < f.len() && f[j] == c;
            if j < g.len() {
                assert(g[j] == c);
                assert(g.contains(c));
            }
        }
        if exists|i: int| 0 <= i < d.len() && is_banner(#[trigger] d[i]) {
            let i = choose|i: int| 0 <= i < d.len() && is_banner(#[trigger] d[i]);
            assert(chans[i] == d[i]);
        }
        if exists|i: int| 0 <= i < chans.len() && is_banner(#[trigger] chans[i]) {
            let i = choose|i: int| 0 <= i < chans.len() && is_banner(#[trigger] chans[i]);
            if i < chans.len() - 1 {
                assert(d[i] == chans[i]);
            }
        }
    }
}

/// The display mode, the top level and the two lists agree: the kiosk is in
/// alert mode exactly when the top allowed level is 警報 or above and some
/// channel takes over the screen; in advisory mode exactly when the top level
/// is 注意報, nothing takes over the screen and some banner shows; in standby
/// exactly when nothing allowed is live above Clear. No channel is both a
/// full-screen alert and a banner.
pub proof fn law_mode_agrees(chans: Seq<AlertChannel>)
    ensures
        mode_of(chans) == "alert"@ || mode_of(chans) == "advisory"@ || mode_of(chans)
            == "standby"@,
        mode_of(chans) == "alert"@ <==> level(top_allowed(chans)) >= 2,
        mode_of(chans) == "alert"@ <==> fullscreen_list(chans).len() > 0,
        mode_of(chans) == "advisory"@ <==> top_allowed(chans) == Severity::Advisory,
        mode_of(chans) == "advisory"@ <==> fullscreen_list(chans).len() == 0 && banner_list(
            chans,
        ).len() > 0,
        mode_of(chans) == "standby"@ <==> top_allowed(chans) == Severity::Clear,
        forall|c: AlertChannel|
            !(#[trigger] fullscreen_list(chans).contains(c) && banner_list(chans).contains(c)),
{
    lemma_mode_words();
    lemma_fullscreen_list(chans);
    lemma_fullscreen_members(chans);
    lemma_banner_list(chans);
    law_top_is_highest(chans);
    let top = top_allowed(chans);
    if level(top) >= 2 {
        let i = choose|i: int|
            0 <= i < chans.len() && (#[trigger] chans[i]).allowed && effective_of(chans[i]) == top;
        assert(fullscreen_of(chans[i]));
    }
    if exists|i: int| 0 <= i < chans.len() && fullscreen_of(#[trigger] chans[i]) {
        let i = choose|i: int| 0 <= i < chans.len() && fullscreen_of(#[trigger] chans[i]);
        assert(chans[i].allowed);
    }
    if level(top) == 1 {
        let i = choose|i: int|
            0 <= i < chans.len() && (#[trigger] chans[i]).allowed && effective_of(chans[i]) == top;
        assert(shown(chans[i]));
        assert(is_banner(chans[i]));
    }
    if exists|i: int| 0 <= i < chans.len() && shown(#[trigger] chans[i]) {
        let i = choose|i: int| 0 <= i < chans.len() && shown(#[trigger] chans[i]);
        assert(chans[i].allowed);
    }
    if exists|i: int| 0 <= i < chans.len() && is_banner(#[trigger] chans[i]) {
        let i = choose|i: int| 0 <= i < chans.len() && is_banner(#[trigger] chans[i]);
        assert(shown(chans[i]));
    }
}

/// Marking a mailbox item read or unread changes the unread count by that
/// item alone: an unread item marked read lowers it by one.
pub proof fn law_mark_read_unread(h: Seq<InboxView>, id: u64, read: bool)
    ensures
        unread_count(marked(h, id, read)) + (match id_index(h, id, 0) {
            Some(i) => if h[i].read {
                0int
            } else {
                1int
            },
            None => 0int,
        }) == unread_count(h) + (match id_index(h, id, 0) {
            Some(i) => if read {
                0int
            } else {
                1int
            },
            None => 0int,
        }),
{
    lemma_id_index(h, id, 0);
    if let Some(i) = id_index(h, id, 0) {
        lemma_unread_update(h, i, InboxView { read: read, ..h[i] });
    }
}

/// Read marks do not stack: of two marks on the same item the last one
/// counts, and marking an item as it already is changes nothing.
pub proof fn law_last_mark_counts(h: Seq<InboxView>, id: u64, first: bool, second: bool)
    ensures
        marked(marked(h, id, first), id, second) == marked(h, id, second),
        (match id_index(h, id, 0) {
            Some(i) => h[i].read == second,
            None => true,
        }) ==> marked(h, id, second) == h,
{
    lemma_id_index(h, id, 0);
    let g = marked(h, id, first);
    lemma_same_ids(h, g, id, 0);
    if let Some(i) = id_index(h, id, 0) {
        assert(marked(g, id, second) =~= marked(h, id, second));
        if h[i].read == second {
            assert(marked(h, id, second) =~= h);
        }
    }
}

/// `id_index` reads only the ids.
proof fn lemma_same_ids(h: Seq<InboxView>, g: Seq<InboxView>, id: u64, i: int)
    requires
        h.len() == g.len(),
        forall|k: int| 0 <= k < h.len() ==> (#[trigger] h[k]).id == g[k].id,
    ensures
        id_index(h, id, i) == id_index(g, id, i),
    decreases h.len() - i,
{
    if 0 <= i < h.len() {
        assert(h[i].id == g[i].id);
        lemma_same_ids(h, g, id, i + 1);
    }
}

/// Marking everything read leaves nothing unread, and doing it again
/// changes nothing.
pub proof fn law_all_read_leaves_none(h: Seq<InboxView>)
    ensures
        unread_count(all_read(h)) == 0,
        all_read(h).len() == h.len(),
        all_read(all_read(h)) == all_read(h),
    decreases h.len(),
{
    assert(all_read(all_read(h)) =~= all_read(h));
    if h.len() > 0 {
        law_all_read_leaves_none(h.drop_last());
        assert(all_read(h).drop_last() =~= all_read(h.drop_last()));
    }
}

/// Replacing one item changes the unread count by the two items' flags.
proof fn lemma_unread_update(h: Seq<InboxView>, i: int, x: InboxView)
    requires
        0 <= i < h.len(),
    ensures
        unread_count(h.update(i, x)) + (if h[i].read {
            0int
        } else {
            1int
        }) == unread_count(h) + (if x.read {
            0int
        } else {
            1int
        }),
    decreases h.len(),
{
    let u = h.update(i, x);
    if i == h.len() - 1 {
        assert(u.drop_last() =~= h.drop_last());
    } else {
        lemma_unread_update(h.drop_last(), i, x);
        assert(u.drop_last() =~= h.drop_last().update(i, x));
    }
}

/// The standby lamps: each lit group appears once, and a group is lit
/// exactly when some shown channel among the first `n` belongs to it.
pub proof fn law_lamps_once_each(chans: Seq<AlertChannel>, n: int, g: LampGroup)
    requires
        0 <= n <= chans.len(),
    ensures
        lamps_upto(chans, n).no_duplicates(),
        lamps_upto(chans, n).contains(g) <==> exists|k: int|
            0 <= k < n && shown(#[trigger] chans[k]) && lamp_of(chans[k].category) == Some(g),
    decreases n,
{
    if n > 0 {
        law_lamps_once_each(chans, n - 1, g);
        let l = lamps_upto(chans, n - 1);
        let c = chans[n - 1];
        if shown(c) {
            if let Some(h) = lamp_of(c.category) {
                if !l.contains(h) {
                    assert forall|p: int, q: int| 0 <= p < q < l.push(h).len() implies l.push(h)[p]
                        != l.push(h)[q] by {
                        if q == l.len() {
                            assert(l.push(h)[p] == l[p]);
                        }
                    }
                    if l.push(h).contains(g) && g != h {
                        let t = choose|t: int| 0 <= t < l.push(h).len() && l.push(h)[t] == g;
                        assert(l[t] == g);
                    }
                    if l.contains(g) {
                        let t = choose|t: int| 0 <= t < l.len() && l[t] == g;
                        assert(l.push(h)[t] == g);
                    }
                    if g == h {
                        assert(l.push(h)[l.len() as int] == g);
                    }
                }
            }
        }
    }
}

/// The top severity is the highest display level among the allowed
/// channels: no allowed channel is above it, and unless it is Clear some
/// allowed channel has it.
pub proof fn law_top_is_highest(chans: Seq<AlertChannel>)
    ensures
        forall|i: int|
            0 <= i < chans.len() && (#[trigger] chans[i]).allowed ==> level(effective_of(chans[i]))
                <= level(top_allowed(chans)),
        top_allowed(chans) != Severity::Clear ==> exists|i: int|
            0 <= i < chans.len() && (#[trigger] chans[i]).allowed && effective_of(chans[i])
                == top_allowed(chans),
    decreases chans.len(),
{
    if chans.len() > 0 {
        let d = chans.drop_last();
        law_top_is_highest(d);
        assert forall|i: int|
            0 <= i < chans.len() && (#[trigger] chans[i]).allowed implies level(
            effective_of(chans[i]),
        ) <= level(top_allowed(chans)) by {
            if i < chans.len() - 1 {
                assert(d[i] == chans[i]);
            }
        }
        if top_allowed(chans) != Severity::Clear {
            if chans.last().allowed && effective_of(chans.last()) == top_allowed(chans) {
                assert(chans[chans.len() - 1] == chans.last());
            } else {
                let i = choose|i: int|
                    0 <= i < d.len() && (#[trigger] d[i]).allowed && effective_of(d[i])
                        == top_allowed(d);
                assert(chans[i] == d[i]);
            }
        }
    }
}


/// Nothing from the same source follows what `last_same_source` finds, and
/// when it finds nothing, nothing below `n` is from that source.
proof fn lemma_last_same_source_is_last(h: Seq<InboxView>, head: Seq<char>, cat: Category, n: int)
    requires
        0 <= n <= h.len(),
    ensures
        match last_same_source(h, head, cat, n) {
            Some(k) => forall|j: int|
                k < j < n ==> !(#[trigger] h[j].head_title == head && h[j].category == cat),
            None => forall|j: int| 0 <= j < n ==> !(#[trigger] h[j].head_title == head && h[j].category == cat),
        },
    decreases n,
{
    if n > 0 && !(h[n - 1].head_title == head && h[n - 1].category == cat) {
        lemma_last_same_source_is_last(h, head, cat, n - 1);
    }
}

/// A report with a new headline is no retransmit: when the last mailbox item
/// with the report's head title and category (if there is one) has another
/// headline, the report becomes the newest item, unread, under the next id,
/// carrying its own headline, and the next id moves on.
pub proof fn law_new_headline_is_recorded(
    before: AppState,
    after: AppState,
    ch: AlertChannel,
    now_ms: i64,
)
    requires
        before.inv(),
        ingested(before, after, ch, now_ms),
        forall|i: int|
            0 <= i < before.hist().len() && (#[trigger] before.hist()[i]).head_title == ch.head_title@
                && before.hist()[i].category == ch.category && (forall|j: int|
                i < j < before.hist().len() ==> !((#[trigger] before.hist()[j]).head_title
                    == ch.head_title@ && before.hist()[j].category == ch.category))
                ==> before.hist()[i].headline != ch.headline@,
    ensures
        after.next() == (before.next() + 1) as u64,
        after.hist().len() > 0,
        after.hist().last().id == before.next(),
        after.hist().last().headline == ch.headline@,
        after.hist().last().head_title == ch.head_title@,
        !after.hist().last().read,
{
    let c = as_allowed(before.rules@, ch);
    let h = before.hist();
    let n = h.len() as int;
    lemma_last_same_source(h, c.head_title@, c.category, n);
    lemma_last_same_source_is_last(h, c.head_title@, c.category, n);
    if let Some(k) = last_same_source(h, c.head_title@, c.category, n) {
        assert(h[k].headline != ch.headline@);
        assert(!repeats(h[k], c));
    }
    assert(!is_repeat(h, c));
    let p = h.push(new_item(c, before.next()));
    assert(after.hist() == capped(p));
    assert(after.hist().last() == p.last());
}


/// A changed report is no retransmit: when the last mailbox item with the
/// report's head title and category (if there is one) differs from it in
/// display level, info type, headline or kinds, the report becomes the
/// newest item, unread, under the next id, and the next id moves on.
pub proof fn law_changed_report_is_recorded(
    before: AppState,
    after: AppState,
    ch: AlertChannel,
    now_ms: i64,
)
    requires
        before.inv(),
        ingested(before, after, ch, now_ms),
        forall|i: int|
            0 <= i < before.hist().len() && (#[trigger] before.hist()[i]).head_title == ch.head_title@
                && before.hist()[i].category == ch.category && (forall|j: int|
                i < j < before.hist().len() ==> !((#[trigger] before.hist()[j]).head_title
                    == ch.head_title@ && before.hist()[j].category == ch.category)) ==> (
            before.hist()[i].severity != effective_of(ch) || before.hist()[i].info_type
                != ch.info_type@ || before.hist()[i].headline != ch.headline@
                || before.hist()[i].kinds != ch.kinds@.map_values(|k: AlertKind| k.name@)),
    ensures
        after.next() == (before.next() + 1) as u64,
        after.hist().len() > 0,
        after.hist().last().id == before.next(),
        after.hist().last().headline == ch.headline@,
        after.hist().last().info_type == ch.info_type@,
        after.hist().last().severity == effective_of(ch),
        !after.hist().last().read,
{
    let c = as_allowed(before.rules@, ch);
    let h = before.hist();
    let n = h.len() as int;
    assert(effective_of(c) == effective_of(ch));
    lemma_last_same_source(h, c.head_title@, c.category, n);
    lemma_last_same_source_is_last(h, c.head_title@, c.category, n);
    if let Some(k) = last_same_source(h, c.head_title@, c.category, n) {
        assert(kind_names(c.kinds@) == ch.kinds@.map_values(|k: AlertKind| k.name@));
        assert(!repeats(h[k], c));
    }
    assert(!is_repeat(h, c));
    let p = h.push(new_item(c, before.next()));
    assert(after.hist() == capped(p));
    assert(after.hist().last() == p.last());
}

} // verus!
