//! Turns one JSONL line from the SDR# plugin, or a raw JMA XML telegram, into
//! an [`AlertChannel`].
//!
//! Every line carries a telegram type code, mapped to an [`AlertType`] and a
//! [`Category`] (情報種別). Weather telegrams (WRMA) also carry the JMA XML, from
//! which severity is graded: the Body/Warning block for the prefectural
//! forecast area lists each Kind with a Status of 発表 / 継続 / 解除; a Kind is
//! "in force" when its Status is not 解除/なし, and its severity comes from the
//! Name suffix (特別警報 > 警報 > 注意報). Non-weather categories take their
//! level from the category.

use crate::model::{
    category_label, category_of_sub_type, category_of_type, channel_of, kind_views, level,
    max_severity, severity_of_name, string_views, type_of_code, AlertChannel, AlertKind, AlertType,
    Category, ChannelView, KindView, RxChannel, Severity,
};
use crate::text::{
    concat2, lemma_lex_irreflexive, lemma_lex_total, lemma_lex_transitive, lex_less, lex_lt,
    occurs_at, seq_contains, str_contains, str_eq, trim, trimmed,
};
use crate::xml::{
    child_text_of, find_child, find_named, find_within, first_text_of, is_child_named,
    nested_text_of, opt_view, parse_xml, xml_nodes, XmlDoc, XmlNodeView,
};
use crate::json::{json_accepts, json_bool_member, json_i64_member, json_str_member, JsonDoc};
use chrono::TimeZone;
use vstd::prelude::*;
use vstd::string::StringSliceAdditionalSpecFns;

verus! {

// ---------------------------------------------------------------------------
// Weather grading over the XML model
// ---------------------------------------------------------------------------

/// The warning kind that Kind node `k` describes.
pub open spec fn kind_view_at(ns: Seq<XmlNodeView>, k: int) -> KindView {
    let name = child_text_of(ns, k, "Name"@);
    (name, child_text_of(ns, k, "Status"@), severity_of_name(name))
}

/// A kind is in force: it has a name, its status is neither 解除 nor なし, and
/// its name grades it.
pub open spec fn in_force(kv: KindView) -> bool {
    kv.0.len() > 0 && kv.1 != "解除"@ && kv.1 != "なし"@ && kv.2 != Severity::Clear
}

/// The in-force kinds among the Kind children of `item` at indices below `m`.
pub open spec fn item_kinds(ns: Seq<XmlNodeView>, item: int, m: int) -> Seq<KindView>
    decreases m,
{
    if m <= 0 {
        Seq::empty()
    } else {
        item_kinds(ns, item, m - 1) + if is_child_named(ns, m - 1, item, "Kind"@) && in_force(
            kind_view_at(ns, m - 1),
        ) {
            seq![kind_view_at(ns, m - 1)]
        } else {
            Seq::empty()
        }
    }
}

/// The in-force kinds of the Item children of `w` at indices below `n`, item
/// by item, in document order.
pub open spec fn warning_kinds(ns: Seq<XmlNodeView>, w: int, n: int) -> Seq<KindView>
    decreases n,
{
    if n <= 0 {
        Seq::empty()
    } else {
        warning_kinds(ns, w, n - 1) + if is_child_named(ns, n - 1, w, "Item"@) {
            item_kinds(ns, n - 1, ns.len() as int)
        } else {
            Seq::empty()
        }
    }
}

/// The area name of an Item: the Name of its first Area child.
pub open spec fn item_area(ns: Seq<XmlNodeView>, item: int) -> Seq<char> {
    match find_child(ns, item, "Area"@, 0) {
        Some(a) => child_text_of(ns, a, "Name"@),
        None => Seq::empty(),
    }
}

/// `a` is the (non-empty) area name of some Item of `w` below index `n`.
pub open spec fn area_seen(ns: Seq<XmlNodeView>, w: int, a: Seq<char>, n: int) -> bool {
    a.len() > 0 && exists|j: int| 0 <= j < n && #[trigger] is_child_named(ns, j, w, "Item"@) && item_area(ns, j) == a
}

/// Node `i` is a Warning block for the prefectural forecast area.
pub open spec fn is_area_warning(ns: Seq<XmlNodeView>, i: int) -> bool {
    ns[i].0 == "Warning"@ && match ns[i].2 {
        Some(t) => seq_contains(t, "府県予報区"@),
        None => false,
    }
}

/// The first prefectural Warning block at or after node `i`.
pub open spec fn find_area_warning(ns: Seq<XmlNodeView>, i: int) -> Option<int>
    decreases ns.len() - i,
{
    if i < 0 || i >= ns.len() {
        None
    } else if is_area_warning(ns, i) {
        Some(i)
    } else {
        find_area_warning(ns, i + 1)
    }
}

/// The Warning block that grades a weather telegram: the first one for the
/// prefectural forecast area, else the first Warning.
pub open spec fn warning_of(ns: Seq<XmlNodeView>) -> Option<int> {
    match find_area_warning(ns, 0) {
        Some(w) => Some(w),
        None => find_named(ns, "Warning"@, 0),
    }
}

/// The kinds of `ks` of severity `s`, in order.
pub open spec fn kinds_with(ks: Seq<KindView>, s: Severity) -> Seq<KindView>
    decreases ks.len(),
{
    if ks.len() == 0 {
        Seq::empty()
    } else {
        kinds_with(ks.drop_last(), s) + if ks.last().2 == s {
            seq![ks.last()]
        } else {
            Seq::empty()
        }
    }
}

/// `ks` in a stable order of decreasing severity.
pub open spec fn by_severity(ks: Seq<KindView>) -> Seq<KindView> {
    kinds_with(ks, Severity::Emergency) + kinds_with(ks, Severity::Warning) + kinds_with(
        ks,
        Severity::Advisory,
    ) + kinds_with(ks, Severity::Clear)
}

/// Some kind in `ks` has the name `name`.
pub open spec fn has_name(ks: Seq<KindView>, name: Seq<char>) -> bool {
    exists|t: int| 0 <= t < ks.len() && #[trigger] ks[t].0 == name
}

/// `ks` keeping only the first kind of each name.
pub open spec fn dedup_names(ks: Seq<KindView>) -> Seq<KindView>
    decreases ks.len(),
{
    if ks.len() == 0 {
        Seq::empty()
    } else {
        let d = dedup_names(ks.drop_last());
        if has_name(d, ks.last().0) {
            d
        } else {
            d.push(ks.last())
        }
    }
}

/// The highest severity in `ks` (Clear when empty).
pub open spec fn top_of(ks: Seq<KindView>) -> Severity
    decreases ks.len(),
{
    if ks.len() == 0 {
        Severity::Clear
    } else {
        max_severity(top_of(ks.drop_last()), ks.last().2)
    }
}

/// The strings are in strictly increasing order.
pub open spec fn sorted_strict(v: Seq<Seq<char>>) -> bool {
    forall|p: int, q: int| 0 <= p < q < v.len() ==> lex_lt(#[trigger] v[p], #[trigger] v[q])
}

/// The area names found under Warning block `w`.
pub open spec fn area_set(ns: Seq<XmlNodeView>, w: int) -> Set<Seq<char>> {
    Set::new(|a: Seq<char>| area_seen(ns, w, a, ns.len() as int))
}

/// The strictly increasing list of the strings in `s`.
pub open spec fn sorted_list(s: Set<Seq<char>>) -> Seq<Seq<char>> {
    choose|v: Seq<Seq<char>>| sorted_strict(v) && forall|a: Seq<char>| #[trigger] v.contains(a) <==> s.contains(a)
}

/// Two strictly increasing lists with the same elements are the same list.
pub proof fn lemma_sorted_unique(a: Seq<Seq<char>>, b: Seq<Seq<char>>)
    requires
        sorted_strict(a),
        sorted_strict(b),
        forall|x: Seq<char>| #[trigger] a.contains(x) <==> b.contains(x),
    ensures
        a == b,
    decreases a.len(),
{
    if a.len() == 0 {
        if b.len() > 0 {
            assert(b.contains(b[0]));
            assert(a.contains(b[0]));
            let i = choose|i: int| 0 <= i < a.len() && a[i] == b[0];
            assert(false);
        }
        assert(a =~= b);
    } else {
        assert(a.contains(a[0]));
        assert(b.len() > 0);
        assert(b.contains(b[0]));
        assert(a.contains(b[0]));
        assert(b.contains(a[0]));
        if a[0] != b[0] {
            let k = choose|k: int| 0 <= k < b.len() && b[k] == a[0];
            let m = choose|m: int| 0 <= m < a.len() && a[m] == b[0];
            assert(k != 0);
            assert(m != 0);
            assert(lex_lt(b[0], b[k]));
            assert(lex_lt(a[0], a[m]));
            lemma_lex_transitive(a[0], b[0], a[0]);
            lemma_lex_irreflexive(a[0]);
        }
        let ta = a.drop_first();
        let tb = b.drop_first();
        assert forall|x: Seq<char>| #[trigger] ta.contains(x) <==> tb.contains(x) by {
            if ta.contains(x) {
                let i = choose|i: int| 0 <= i < ta.len() && ta[i] == x;
                assert(a[i + 1] == x);
                assert(lex_lt(a[0], x));
                assert(a.contains(x));
                assert(b.contains(x));
                let j = choose|j: int| 0 <= j < b.len() && b[j] == x;
                if j == 0 {
                    lemma_lex_irreflexive(x);
                }
                assert(tb[j - 1] == x);
            }
            if tb.contains(x) {
                let i = choose|i: int| 0 <= i < tb.len() && tb[i] == x;
                assert(b[i + 1] == x);
                assert(lex_lt(b[0], x));
                assert(b.contains(x));
                assert(a.contains(x));
                let j = choose|j: int| 0 <= j < a.len() && a[j] == x;
                if j == 0 {
                    lemma_lex_irreflexive(x);
                }
                assert(ta[j - 1] == x);
            }
        }
        assert(sorted_strict(ta)) by {
            assert forall|p: int, q: int| 0 <= p < q < ta.len() implies lex_lt(
                #[trigger] ta[p],
                #[trigger] ta[q],
            ) by {
                assert(ta[p] == a[p + 1]);
                assert(ta[q] == a[q + 1]);
            }
        }
        assert(sorted_strict(tb)) by {
            assert forall|p: int, q: int| 0 <= p < q < tb.len() implies lex_lt(
                #[trigger] tb[p],
                #[trigger] tb[q],
            ) by {
                assert(tb[p] == b[p + 1]);
                assert(tb[q] == b[q + 1]);
            }
        }
        lemma_sorted_unique(ta, tb);
        assert(a =~= seq![a[0]] + ta);
        assert(b =~= seq![b[0]] + tb);
    }
}

/// A strictly increasing list is the sorted list of its elements.
pub proof fn lemma_sorted_list(v: Seq<Seq<char>>, s: Set<Seq<char>>)
    requires
        sorted_strict(v),
        forall|a: Seq<char>| #[trigger] v.contains(a) <==> s.contains(a),
    ensures
        sorted_list(s) == v,
{
    let c = sorted_list(s);
    assert(sorted_strict(c) && forall|a: Seq<char>| #[trigger] c.contains(a) <==> s.contains(a));
    lemma_sorted_unique(c, v);
}

/// What grading with Warning block `w` makes of a channel: the kinds in force,
/// most severe first and one per name; the top severity; the sorted distinct
/// area names; and the first of them as area name if there was none.
pub open spec fn weather_channel(ns: Seq<XmlNodeView>, w: int, c: ChannelView) -> ChannelView {
    let ks = warning_kinds(ns, w, ns.len() as int);
    let areas = sorted_list(area_set(ns, w));
    ChannelView {
        kinds: dedup_names(by_severity(ks)),
        severity: top_of(ks),
        areas: areas,
        area_name: if c.area_name.len() == 0 {
            if areas.len() > 0 {
                areas[0]
            } else {
                Seq::empty()
            }
        } else {
            c.area_name
        },
        ..c
    }
}

/// What weather grading makes of a channel (unchanged without a Warning block).
pub open spec fn weather_graded(ns: Seq<XmlNodeView>, c: ChannelView) -> ChannelView {
    match warning_of(ns) {
        Some(w) => weather_channel(ns, w, c),
        None => c,
    }
}

/// A copy of a warning kind.
fn copy_kind(k: &AlertKind) -> (res: AlertKind)
    ensures
        res@ == k@,
{
    AlertKind { name: k.name.clone(), status: k.status.clone(), severity: k.severity }
}

/// The first Warning block for the prefectural forecast area.
fn find_area_warning_exec(doc: &XmlDoc) -> (res: Option<usize>)
    ensures
        match res {
            Some(w) => find_area_warning(doc@, 0) == Some(w as int),
            None => find_area_warning(doc@, 0) is None,
        },
{
    let mut i: usize = 0;
    while i < doc.nodes.len()
        invariant
            i <= doc.nodes@.len(),
            find_area_warning(doc@, 0) == find_area_warning(doc@, i as int),
        decreases doc.nodes@.len() - i,
    {
        if str_eq(doc.nodes[i].name.as_str(), "Warning") {
            match &doc.nodes[i].type_attr {
                Some(t) => {
                    if str_contains(t.as_str(), "府県予報区") {
                        return Some(i);
                    }
                },
                None => {},
            }
        }
        i = i + 1;
    }
    None
}

/// The Warning block that grades a weather telegram.
fn warning_node(doc: &XmlDoc) -> (res: Option<usize>)
    ensures
        match res {
            Some(w) => warning_of(doc@) == Some(w as int),
            None => warning_of(doc@) is None,
        },
{
    match find_area_warning_exec(doc) {
        Some(w) => Some(w),
        None => doc.first_named("Warning"),
    }
}

/// The warning kind that Kind node `k` describes.
fn kind_at(doc: &XmlDoc, k: usize) -> (res: AlertKind)
    ensures
        res@ == kind_view_at(doc@, k as int),
{
    let name = doc.child_text(k, "Name");
    let status = doc.child_text(k, "Status");
    let severity = Severity::of_name(name.as_str());
    AlertKind { name, status, severity }
}

fn is_in_force(k: &AlertKind) -> (res: bool)
    ensures
        res == in_force(k@),
{
    !k.name.as_str().is_empty() && !str_eq(k.status.as_str(), "解除") && !str_eq(
        k.status.as_str(),
        "なし",
    ) && k.severity != Severity::Clear
}

/// Appends the kinds of `ks` of severity `s` to `out`, in order.
fn append_with(out: &mut Vec<AlertKind>, ks: &Vec<AlertKind>, s: Severity)
    ensures
        kind_views(final(out)@) == kind_views(old(out)@) + kinds_with(kind_views(ks@), s),
{
    let ghost start = kind_views(out@);
    let mut i: usize = 0;
    assert(kind_views(ks@).take(0) =~= Seq::<KindView>::empty());
    assert(start + Seq::<KindView>::empty() =~= start);
    while i < ks.len()
        invariant
            i <= ks@.len(),
            kind_views(out@) == start + kinds_with(kind_views(ks@).take(i as int), s),
        decreases ks@.len() - i,
    {
        let ghost pre = kind_views(ks@).take(i as int);
        assert(kind_views(ks@).take(i + 1).drop_last() =~= pre);
        assert(kind_views(ks@).take(i + 1).last() == ks@[i as int]@);
        if ks[i].severity == s {
            let k = copy_kind(&ks[i]);
            let ghost before_push = kind_views(out@);
            out.push(k);
            assert(kind_views(out@) =~= before_push.push(ks@[i as int]@));
            assert(kinds_with(kind_views(ks@).take(i + 1), s) == kinds_with(pre, s) + seq![
                ks@[i as int]@,
            ]);
            assert(kind_views(out@) =~= start + kinds_with(kind_views(ks@).take(i + 1), s));
        } else {
            assert(kinds_with(kind_views(ks@).take(i + 1), s) =~= kinds_with(pre, s));
        }
        i = i + 1;
    }
    assert(kind_views(ks@).take(ks@.len() as int) =~= kind_views(ks@));
}

/// `ks` in a stable order of decreasing severity.
fn sort_by_severity(ks: &Vec<AlertKind>) -> (res: Vec<AlertKind>)
    ensures
        kind_views(res@) == by_severity(kind_views(ks@)),
{
    let mut out: Vec<AlertKind> = Vec::new();
    assert(kind_views(out@) =~= Seq::<KindView>::empty());
    append_with(&mut out, ks, Severity::Emergency);
    append_with(&mut out, ks, Severity::Warning);
    append_with(&mut out, ks, Severity::Advisory);
    append_with(&mut out, ks, Severity::Clear);
    assert(kind_views(out@) =~= by_severity(kind_views(ks@)));
    out
}

/// Whether some kind in `ks` is named `name`.
fn has_name_exec(ks: &Vec<AlertKind>, name: &str) -> (res: bool)
    ensures
        res == has_name(kind_views(ks@), name@),
{
    let mut t: usize = 0;
    while t < ks.len()
        invariant
            t <= ks@.len(),
            forall|u: int| 0 <= u < t ==> ks@[u].name@ != name@,
        decreases ks@.len() - t,
    {
        if str_eq(ks[t].name.as_str(), name) {
            assert(kind_views(ks@)[t as int].0 == name@);
            return true;
        }
        t = t + 1;
    }
    assert forall|u: int| 0 <= u < kind_views(ks@).len() implies #[trigger] kind_views(ks@)[u].0
        != name@ by {
        assert(kind_views(ks@)[u] == ks@[u]@);
    }
    false
}

/// `ks` keeping only the first kind of each name.
fn dedup_by_name(ks: &Vec<AlertKind>) -> (res: Vec<AlertKind>)
    ensures
        kind_views(res@) == dedup_names(kind_views(ks@)),
{
    let mut out: Vec<AlertKind> = Vec::new();
    let mut i: usize = 0;
    assert(kind_views(ks@).take(0) =~= Seq::<KindView>::empty());
    assert(kind_views(out@) =~= Seq::<KindView>::empty());
    while i < ks.len()
        invariant
            i <= ks@.len(),
            kind_views(out@) == dedup_names(kind_views(ks@).take(i as int)),
        decreases ks@.len() - i,
    {
        let ghost pre = kind_views(ks@).take(i as int);
        assert(kind_views(ks@).take(i + 1).drop_last() =~= pre);
        assert(kind_views(ks@).take(i + 1).last() == ks@[i as int]@);
        if !has_name_exec(&out, ks[i].name.as_str()) {
            let k = copy_kind(&ks[i]);
            out.push(k);
            assert(kind_views(out@) =~= dedup_names(kind_views(ks@).take(i + 1)));
        }
        i = i + 1;
    }
    assert(kind_views(ks@).take(ks@.len() as int) =~= kind_views(ks@));
    out
}

/// Inserts `x` into the strictly increasing list `areas` unless present.
fn insert_sorted(areas: &mut Vec<String>, x: String)
    requires
        sorted_strict(string_views(old(areas)@)),
    ensures
        sorted_strict(string_views(final(areas)@)),
        forall|a: Seq<char>| #[trigger] string_views(final(areas)@).contains(a) <==> (string_views(
            old(areas)@,
        ).contains(a) || a == x@),
{
    let ghost v = string_views(areas@);
    let mut t: usize = 0;
    while t < areas.len()
        invariant
            v == string_views(areas@),
            v == string_views(old(areas)@),
            sorted_strict(v),
            t <= areas@.len(),
            forall|u: int| 0 <= u < t ==> areas@[u]@ != x@,
        decreases areas@.len() - t,
    {
        if str_eq(areas[t].as_str(), x.as_str()) {
            assert(v[t as int] == x@);
            return;
        }
        t = t + 1;
    }
    assert(!v.contains(x@));
    let mut i: usize = 0;
    while i < areas.len() && lex_less(areas[i].as_str(), x.as_str())
        invariant
            v == string_views(areas@),
            i <= areas@.len(),
            forall|u: int| 0 <= u < i ==> lex_lt(#[trigger] v[u], x@),
        decreases areas@.len() - i,
    {
        i = i + 1;
    }
    proof {
        if i < v.len() {
            lemma_lex_total(v[i as int], x@);
        }
    }
    let ghost xv = x@;
    areas.insert(i, x);
    proof {
        let nv = string_views(areas@);
        assert(nv =~= v.insert(i as int, xv));
        assert forall|p: int, q: int| 0 <= p < q < nv.len() implies lex_lt(
            #[trigger] nv[p],
            #[trigger] nv[q],
        ) by {
            if q < i {
            } else if q == i {
            } else if p < i {
                assert(nv[q] == v[q - 1]);
                lemma_lex_transitive(v[p], xv, v[i as int]);
                if q - 1 > i {
                    lemma_lex_transitive(v[p], v[i as int], v[q - 1]);
                }
            } else if p == i {
                assert(nv[q] == v[q - 1]);
                if q - 1 > i {
                    lemma_lex_transitive(xv, v[i as int], v[q - 1]);
                }
            } else {
                assert(nv[p] == v[p - 1]);
                assert(nv[q] == v[q - 1]);
            }
        }
        assert forall|a: Seq<char>| #[trigger] nv.contains(a) <==> (v.contains(a) || a == xv) by {
            if nv.contains(a) {
                let k = choose|k: int| 0 <= k < nv.len() && nv[k] == a;
                if k < i {
                    assert(v[k] == a);
                } else if k > i {
                    assert(v[k - 1] == a);
                }
            }
            if v.contains(a) {
                let k = choose|k: int| 0 <= k < v.len() && v[k] == a;
                if k < i {
                    assert(nv[k] == a);
                } else {
                    assert(nv[k + 1] == a);
                }
            }
            if a == xv {
                assert(nv[i as int] == a);
            }
        }
    }
}

/// The in-force kind that node `k` contributes as a Kind child of `item`.
fn item_kind_at(doc: &XmlDoc, item: usize, k: usize) -> (res: Option<AlertKind>)
    requires
        k < doc.nodes@.len(),
    ensures
        res is Some <==> (is_child_named(doc@, k as int, item as int, "Kind"@) && in_force(
            kind_view_at(doc@, k as int),
        )),
        res matches Some(kd) ==> kd@ == kind_view_at(doc@, k as int),
{
    if doc.nodes[k].parent == Some(item) && str_eq(doc.nodes[k].name.as_str(), "Kind") {
        let kd = kind_at(doc, k);
        if is_in_force(&kd) {
            return Some(kd);
        }
    }
    None
}

/// The area name of Item node `item`.
fn item_area_exec(doc: &XmlDoc, item: usize) -> (res: String)
    ensures
        res@ == item_area(doc@, item as int),
{
    match doc.child_named(item, "Area", 0) {
        Some(a) => doc.child_text(a, "Name"),
        None => String::new(),
    }
}

/// Grades a weather telegram from its Warning block: records the kinds in
/// force (most severe first, one per name), the highest severity, the sorted
/// distinct area names, and the first area as area name if there was none.
/// Leaves the channel as it is when the document has no Warning block.
pub fn classify_weather_doc(doc: &XmlDoc, ch: &mut AlertChannel)
    ensures
        final(ch)@ == weather_graded(doc@, old(ch)@),
        warning_of(doc@) is Some ==> sorted_strict(final(ch)@.areas) && forall|a: Seq<char>|
            #[trigger] final(ch)@.areas.contains(a) <==> area_seen(
                doc@,
                warning_of(doc@)->0,
                a,
                doc@.len() as int,
            ),
{
    let w = match warning_node(doc) {
        Some(w) => w,
        None => return ,
    };
    let ghost ns = doc@;
    let n = doc.nodes.len();
    let mut kinds: Vec<AlertKind> = Vec::new();
    let mut areas: Vec<String> = Vec::new();
    let mut top = Severity::Clear;
    let mut j: usize = 0;
    assert(kind_views(kinds@) =~= Seq::<KindView>::empty());
    assert(string_views(areas@) =~= Seq::<Seq<char>>::empty());
    while j < n
        invariant
            ns == doc@,
            n == ns.len(),
            j <= n,
            kind_views(kinds@) == warning_kinds(ns, w as int, j as int),
            top == top_of(kind_views(kinds@)),
            sorted_strict(string_views(areas@)),
            forall|a: Seq<char>| #[trigger] string_views(areas@).contains(a) <==> area_seen(
                ns,
                w as int,
                a,
                j as int,
            ),
        decreases n - j,
    {
        let ghost before = kind_views(kinds@);
        let ghost areas_before = string_views(areas@);
        if doc.nodes[j].parent == Some(w) && str_eq(doc.nodes[j].name.as_str(), "Item") {
            assert(is_child_named(ns, j as int, w as int, "Item"@));
            let mut k: usize = 0;
            assert(before + Seq::<KindView>::empty() =~= before);
            while k < n
                invariant
                    ns == doc@,
                    n == ns.len(),
                    j < n,
                    k <= n,
                    kind_views(kinds@) == before + item_kinds(ns, j as int, k as int),
                    top == top_of(kind_views(kinds@)),
                decreases n - k,
            {
                let ghost cur = kind_views(kinds@);
                match item_kind_at(doc, j, k) {
                    Some(kd) => {
                        if kd.severity.rank() > top.rank() {
                            top = kd.severity;
                        }
                        let ghost kv = kd@;
                        kinds.push(kd);
                        assert(kind_views(kinds@) =~= cur.push(kv));
                        assert(kind_views(kinds@).drop_last() =~= cur);
                        assert(kind_views(kinds@) =~= before + item_kinds(ns, j as int, k + 1));
                    },
                    None => {
                        assert(item_kinds(ns, j as int, k + 1) =~= item_kinds(ns, j as int, k as int));
                    },
                }
                k = k + 1;
            }
            assert(kind_views(kinds@) =~= warning_kinds(ns, w as int, j + 1));
            let area = item_area_exec(doc, j);
            if !area.as_str().is_empty() {
                insert_sorted(&mut areas, area);
            }
            assert forall|a: Seq<char>| #[trigger] string_views(areas@).contains(a) <==> area_seen(
                ns,
                w as int,
                a,
                j + 1,
            ) by {
                if area_seen(ns, w as int, a, j + 1) && !area_seen(ns, w as int, a, j as int) {
                    let jj = choose|jj: int|
                        0 <= jj < j + 1 && #[trigger] is_child_named(ns, jj, w as int, "Item"@)
                            && item_area(ns, jj) == a;
                    assert(jj == j);
                }
                if area_seen(ns, w as int, a, j as int) {
                    let jj = choose|jj: int|
                        0 <= jj < j && #[trigger] is_child_named(ns, jj, w as int, "Item"@)
                            && item_area(ns, jj) == a;
                    assert(0 <= jj < j + 1 && is_child_named(ns, jj, w as int, "Item"@)
                        && item_area(ns, jj) == a);
                }
                if a == item_area(ns, j as int) && a.len() > 0 {
                    assert(is_child_named(ns, j as int, w as int, "Item"@));
                }
            }
        } else {
            assert(kind_views(kinds@) =~= warning_kinds(ns, w as int, j + 1));
            assert forall|a: Seq<char>| #[trigger] string_views(areas@).contains(a) <==> area_seen(
                ns,
                w as int,
                a,
                j + 1,
            ) by {
                if area_seen(ns, w as int, a, j + 1) {
                    let jj = choose|jj: int|
                        0 <= jj < j + 1 && #[trigger] is_child_named(ns, jj, w as int, "Item"@)
                            && item_area(ns, jj) == a;
                    assert(jj != j);
                    assert(0 <= jj < j && is_child_named(ns, jj, w as int, "Item"@)
                        && item_area(ns, jj) == a);
                }
            }
        }
        j = j + 1;
    }
    let sorted = sort_by_severity(&kinds);
    let deduped = dedup_by_name(&sorted);
    let first_area = if areas.len() > 0 {
        areas[0].clone()
    } else {
        String::new()
    };
    proof {
        assert forall|a: Seq<char>| #[trigger] string_views(areas@).contains(a) <==> area_set(
            ns,
            w as int,
        ).contains(a) by {}
        lemma_sorted_list(string_views(areas@), area_set(ns, w as int));
    }
    ch.kinds = deduped;
    ch.severity = top;
    ch.areas = areas;
    if ch.area_name.as_str().is_empty() {
        ch.area_name = first_area;
    }
    assert(final(ch)@ =~= weather_graded(ns, old(ch)@));
}

// ---------------------------------------------------------------------------
// Head fields, earthquake fields, and the category of a raw XML telegram
// ---------------------------------------------------------------------------

/// The channel with the Control/Head titles, report time, info type and
/// headline filled from the document where it has none.
pub open spec fn head_applied(ns: Seq<XmlNodeView>, c: ChannelView) -> ChannelView {
    ChannelView {
        title: if c.title.len() == 0 {
            first_text_of(ns, "Title"@)
        } else {
            c.title
        },
        head_title: if c.head_title.len() == 0 {
            nested_text_of(ns, "Head"@, "Title"@)
        } else {
            c.head_title
        },
        report_time: if c.report_time.len() == 0 {
            first_text_of(ns, "ReportDateTime"@)
        } else {
            c.report_time
        },
        info_type: if c.info_type.len() == 0 {
            nested_text_of(ns, "Head"@, "InfoType"@)
        } else {
            c.info_type
        },
        headline: if c.headline.len() == 0 {
            nested_text_of(ns, "Headline"@, "Text"@)
        } else {
            c.headline
        },
        ..c
    }
}

/// Fill Control/Head titles, report time, info type and headline from the
/// XML where the channel doesn't already have them.
pub fn apply_head_fields(doc: &XmlDoc, ch: &mut AlertChannel)
    ensures
        final(ch)@ == head_applied(doc@, old(ch)@),
{
    if ch.title.as_str().is_empty() {
        ch.title = doc.first_text("Title");
    }
    if ch.head_title.as_str().is_empty() {
        ch.head_title = doc.nested_text("Head", "Title");
    }
    if ch.report_time.as_str().is_empty() {
        ch.report_time = doc.first_text("ReportDateTime");
    }
    if ch.info_type.as_str().is_empty() {
        ch.info_type = doc.nested_text("Head", "InfoType");
    }
    if ch.headline.as_str().is_empty() {
        ch.headline = doc.nested_text("Headline", "Text");
    }
    assert(final(ch)@ =~= head_applied(doc@, old(ch)@));
}

/// The hypocentre: the Name of the first Area inside the first Hypocenter.
pub open spec fn hypocenter_of(ns: Seq<XmlNodeView>) -> Seq<char> {
    match find_named(ns, "Hypocenter"@, 0) {
        Some(h) => match find_within(ns, h, "Area"@, 0) {
            Some(a) => child_text_of(ns, a, "Name"@),
            None => Seq::empty(),
        },
        None => Seq::empty(),
    }
}

/// `parts` joined with `sep` between consecutive parts.
pub open spec fn join_with(parts: Seq<Seq<char>>, sep: Seq<char>) -> Seq<char>
    decreases parts.len(),
{
    if parts.len() == 0 {
        Seq::empty()
    } else if parts.len() == 1 {
        parts[0]
    } else {
        join_with(parts.drop_last(), sep) + sep + parts.last()
    }
}

/// The pieces of an earthquake summary: maximum intensity, magnitude and
/// hypocentre, each only where the document has it.
pub open spec fn quake_bits(ns: Seq<XmlNodeView>) -> Seq<Seq<char>> {
    let max_int = first_text_of(ns, "MaxInt"@);
    let mag = first_text_of(ns, "Magnitude"@);
    let hypo = hypocenter_of(ns);
    (if max_int.len() > 0 {
        seq!["最大震度 "@ + max_int]
    } else {
        Seq::empty()
    }) + (if mag.len() > 0 {
        seq!["M"@ + mag]
    } else {
        Seq::empty()
    }) + (if hypo.len() > 0 {
        seq!["震源 "@ + hypo]
    } else {
        Seq::empty()
    })
}

/// The channel with the hypocentre as area name (when it had none) and the
/// earthquake summary appended to its headline.
pub open spec fn quake_applied(ns: Seq<XmlNodeView>, c: ChannelView) -> ChannelView {
    let hypo = hypocenter_of(ns);
    let bits = quake_bits(ns);
    let summary = join_with(bits, "　"@);
    ChannelView {
        area_name: if hypo.len() > 0 && c.area_name.len() == 0 {
            hypo
        } else {
            c.area_name
        },
        headline: if bits.len() == 0 {
            c.headline
        } else if c.headline.len() == 0 {
            summary
        } else {
            c.headline + "　"@ + summary
        },
        ..c
    }
}

/// The strings of `parts` joined with `sep`.
pub fn join_strings(parts: &Vec<String>, sep: &str) -> (res: String)
    ensures
        res@ == join_with(string_views(parts@), sep@),
{
    let mut out = String::new();
    let mut i: usize = 0;
    assert(string_views(parts@).take(0) =~= Seq::<Seq<char>>::empty());
    while i < parts.len()
        invariant
            i <= parts@.len(),
            out@ == join_with(string_views(parts@).take(i as int), sep@),
        decreases parts@.len() - i,
    {
        let ghost pre = string_views(parts@).take(i as int);
        assert(string_views(parts@).take(i + 1).drop_last() =~= pre);
        assert(string_views(parts@).take(i + 1).last() == parts@[i as int]@);
        if i == 0 {
            assert(string_views(parts@).take(1) =~= seq![parts@[0]@]);
            out = parts[0].clone();
        } else {
            out.append(sep);
            out.append(parts[i].as_str());
        }
        i = i + 1;
    }
    assert(string_views(parts@).take(parts@.len() as int) =~= string_views(parts@));
    out
}

/// The hypocentre of an earthquake telegram.
fn hypocenter_exec(doc: &XmlDoc) -> (res: String)
    ensures
        res@ == hypocenter_of(doc@),
{
    match doc.first_named("Hypocenter") {
        Some(h) => match doc.within_named(h, "Area") {
            Some(a) => doc.child_text(a, "Name"),
            None => String::new(),
        },
        None => String::new(),
    }
}

/// Earthquake telegrams: surface hypocentre / max seismic intensity /
/// magnitude.
pub fn apply_quake_fields(doc: &XmlDoc, ch: &mut AlertChannel)
    ensures
        final(ch)@ == quake_applied(doc@, old(ch)@),
{
    let hypo = hypocenter_exec(doc);
    let max_int = doc.first_text("MaxInt");
    let mag = doc.first_text("Magnitude");
    if !hypo.as_str().is_empty() && ch.area_name.as_str().is_empty() {
        ch.area_name = hypo.clone();
    }
    let mut bits: Vec<String> = Vec::new();
    if !max_int.as_str().is_empty() {
        bits.push(concat2("最大震度 ", max_int.as_str()));
    }
    if !mag.as_str().is_empty() {
        bits.push(concat2("M", mag.as_str()));
    }
    if !hypo.as_str().is_empty() {
        bits.push(concat2("震源 ", hypo.as_str()));
    }
    assert(string_views(bits@) =~= quake_bits(doc@));
    if bits.len() > 0 {
        let summary = join_strings(&bits, "　");
        if ch.headline.as_str().is_empty() {
            ch.headline = summary;
        } else {
            let mut h = concat2(ch.headline.as_str(), "　");
            h.append(summary.as_str());
            ch.headline = h;
        }
    }
    assert(final(ch)@ =~= quake_applied(doc@, old(ch)@));
}

/// The category of a raw XML telegram, from its Control/Title and InfoKind.
pub open spec fn detected_category(control_title: Seq<char>, info_kind: Seq<char>) -> Category {
    let s = control_title + " "@ + info_kind;
    if seq_contains(s, "緊急地震速報"@) {
        Category::Eew
    } else if seq_contains(s, "震度速報"@) {
        Category::SeismicIntensity
    } else if seq_contains(s, "地震"@) || seq_contains(s, "震源"@) {
        Category::Earthquake
    } else if seq_contains(s, "津波"@) {
        Category::Tsunami
    } else if seq_contains(s, "噴火"@) || seq_contains(s, "火山"@) {
        Category::Volcano
    } else if seq_contains(s, "国民保護"@) {
        Category::CivilProtection
    } else if seq_contains(s, "気象"@) || seq_contains(s, "大雨"@) || seq_contains(s, "竜巻"@)
        || seq_contains(s, "土砂"@) || seq_contains(s, "洪水"@) || seq_contains(s, "警報"@)
        || seq_contains(s, "注意報"@) {
        Category::Weather
    } else {
        Category::Other
    }
}

/// The telegram type code that a category is broadcast under.
pub open spec fn type_for_category(c: Category) -> AlertType {
    match c {
        Category::CivilProtection => AlertType::Jalt,
        Category::EmergencyContact => AlertType::Ifda,
        Category::Eew => AlertType::Eprq,
        Category::Earthquake | Category::SeismicIntensity => AlertType::Ioeq,
        Category::Tsunami => AlertType::Issw,
        Category::Volcano => AlertType::Volc,
        Category::Weather => AlertType::Wrma,
        Category::Test | Category::Other => AlertType::Unknown,
    }
}

/// The category of a raw XML telegram, from its Control/Title and InfoKind.
pub fn detect_category(control_title: &str, info_kind: &str) -> (res: Category)
    ensures
        res == detected_category(control_title@, info_kind@),
{
    let mut joined = concat2(control_title, " ");
    joined.append(info_kind);
    let s = joined.as_str();
    if str_contains(s, "緊急地震速報") {
        Category::Eew
    } else if str_contains(s, "震度速報") {
        Category::SeismicIntensity
    } else if str_contains(s, "地震") || str_contains(s, "震源") {
        Category::Earthquake
    } else if str_contains(s, "津波") {
        Category::Tsunami
    } else if str_contains(s, "噴火") || str_contains(s, "火山") {
        Category::Volcano
    } else if str_contains(s, "国民保護") {
        Category::CivilProtection
    } else if str_contains(s, "気象") || str_contains(s, "大雨") || str_contains(s, "竜巻")
        || str_contains(s, "土砂") || str_contains(s, "洪水") || str_contains(s, "警報")
        || str_contains(s, "注意報") {
        Category::Weather
    } else {
        Category::Other
    }
}

/// The telegram type code that a category is broadcast under.
pub fn alert_type_for(c: Category) -> (res: AlertType)
    ensures
        res == type_for_category(c),
{
    match c {
        Category::CivilProtection => AlertType::Jalt,
        Category::EmergencyContact => AlertType::Ifda,
        Category::Eew => AlertType::Eprq,
        Category::Earthquake | Category::SeismicIntensity => AlertType::Ioeq,
        Category::Tsunami => AlertType::Issw,
        Category::Volcano => AlertType::Volc,
        Category::Weather => AlertType::Wrma,
        Category::Test | Category::Other => AlertType::Unknown,
    }
}

// ---------------------------------------------------------------------------
// Packet timestamps
// ---------------------------------------------------------------------------

/// An ASCII decimal digit byte.
pub open spec fn is_digit(b: u8) -> bool {
    48 <= b <= 57
}

/// The decimal value of a string of digits.
pub open spec fn digits_value(d: Seq<u8>) -> nat
    decreases d.len(),
{
    if d.len() == 0 {
        0
    } else {
        digits_value(d.drop_last()) * 10 + (d.last() - 48) as nat
    }
}

/// Ten to the power `n`.
pub open spec fn pow10(n: nat) -> nat
    decreases n,
{
    if n == 0 {
        1
    } else {
        10 * pow10((n - 1) as nat)
    }
}

/// Every byte is a decimal digit.
pub open spec fn all_digits(d: Seq<u8>) -> bool {
    forall|i: int| 0 <= i < d.len() ==> is_digit(#[trigger] d[i])
}

/// The digits of a field: without its `+` sign, if it has one and more.
pub open spec fn unsigned_digits(b: Seq<u8>) -> Seq<u8> {
    if b.len() > 1 && b[0] == 43 {
        b.drop_first()
    } else {
        b
    }
}

/// What `str::parse::<u32>` makes of a short field: an optional `+` sign
/// followed by at least one decimal digit.
pub open spec fn small_field(b: Seq<u8>) -> Option<u32> {
    let d = unsigned_digits(b);
    if d.len() > 0 && all_digits(d) {
        Some(digits_value(d) as u32)
    } else {
        None
    }
}

/// The date and time fields (year, month, day, hour, minute, second) of a
/// `YYYYMMDDhhmmssSSS` packet timestamp, given as UTF-8 bytes.
pub open spec fn packet_fields(b: Seq<u8>) -> Option<(u32, u32, u32, u32, u32, u32)> {
    if b.len() < 14 {
        None
    } else {
        match (
            small_field(b.subrange(0, 4)),
            small_field(b.subrange(4, 6)),
            small_field(b.subrange(6, 8)),
            small_field(b.subrange(8, 10)),
            small_field(b.subrange(10, 12)),
            small_field(b.subrange(12, 14)),
        ) {
            (Some(y), Some(mo), Some(d), Some(h), Some(mi), Some(s)) => Some((y, mo, d, h, mi, s)),
            _ => None,
        }
    }
}

/// The milliseconds (`SSS`) of a packet timestamp: 0 when the text stops
/// before them, `None` when they are there and do not parse.
pub open spec fn packet_millis(b: Seq<u8>) -> Option<u32> {
    if b.len() < 17 {
        Some(0)
    } else {
        small_field(b.subrange(14, 17))
    }
}

/// What a packet timestamp converts to: 0 unless its date, time and
/// milliseconds parse; then 0 (no single local time) or the instant of a
/// valid local date and time the fields name, plus the milliseconds.
pub open spec fn packet_time_ms_ok(b: Seq<u8>, res: int) -> bool {
    match (packet_fields(b), packet_millis(b)) {
        (Some(f), Some(m)) => res == 0 || local_instant_of(
            f.0 as int,
            f.1 as int,
            f.2 as int,
            f.3 as int,
            f.4 as int,
            f.5 as int,
            res - m,
        ),
        _ => res == 0,
    }
}

/// The field of bytes `[a, e)` of `b`, parsed as `str::parse::<u32>` does.
fn parse_small_field(b: &[u8], a: usize, e: usize) -> (res: Option<u32>)
    requires
        a <= e <= b@.len(),
        e - a <= 4,
    ensures
        res == small_field(b@.subrange(a as int, e as int)),
        res matches Some(v) ==> v <= 9999,
        res matches Some(v) ==> (e - a <= 3 ==> v <= 999),
{
    let ghost f = b@.subrange(a as int, e as int);
    let start = if e - a > 1 && b[a] == 43 {
        a + 1
    } else {
        a
    };
    let ghost d = b@.subrange(start as int, e as int);
    assert(d =~= unsigned_digits(f));
    if start == e {
        return None;
    }
    let mut acc: u32 = 0;
    let mut i: usize = start;
    assert(d.take(0) =~= Seq::<u8>::empty());
    while i < e
        invariant
            start <= i <= e,
            e <= b@.len(),
            e - start <= 4,
            d == b@.subrange(start as int, e as int),
            f == b@.subrange(a as int, e as int),
            d == unsigned_digits(f),
            d.len() > 0,
            forall|k: int| 0 <= k < i - start ==> is_digit(#[trigger] d[k]),
            acc as nat == digits_value(d.take(i - start)),
            acc < pow10((i - start) as nat),
            pow10((i - start) as nat) <= 10000,
        decreases e - i,
    {
        let c = b[i];
        if c < 48 || c > 57 {
            assert(!is_digit(d[i - start]));
            return None;
        }
        assert(d.take(i - start + 1).drop_last() =~= d.take(i - start));
        assert(d.take(i - start + 1).last() == c);
        let ghost p = pow10((i - start) as nat);
        assert(pow10((i - start + 1) as nat) == 10 * p);
        assert(acc * 10 + (c - 48) < 10 * p) by (nonlinear_arith)
            requires
                acc < p,
                c - 48 <= 9,
        ;
        assert((i - start + 1) <= 4);
        assert(pow10((i - start + 1) as nat) <= 10000) by {
            assert(pow10(0) == 1);
            assert(pow10(1) == 10);
            assert(pow10(2) == 100);
            assert(pow10(3) == 1000);
            assert(pow10(4) == 10000);
        }
        acc = acc * 10 + (c - 48) as u32;
        i = i + 1;
    }
    assert(d.take(d.len() as int) =~= d);
    assert(e - a <= 3 ==> pow10((e - start) as nat) <= 1000) by {
        assert(pow10(0) == 1);
        assert(pow10(1) == 10);
        assert(pow10(2) == 100);
        assert(pow10(3) == 1000);
    }
    Some(acc)
}

/// The date and time fields of a packet timestamp.
pub fn packet_time_fields(p: &str) -> (res: Option<(u32, u32, u32, u32, u32, u32)>)
    ensures
        res == packet_fields(p.spec_bytes()),
        res matches Some(f) ==> f.0 <= 9999,
{
    let b = p.as_bytes();
    if b.len() < 14 {
        return None;
    }
    let y = parse_small_field(b, 0, 4);
    let mo = parse_small_field(b, 4, 6);
    let d = parse_small_field(b, 6, 8);
    let h = parse_small_field(b, 8, 10);
    let mi = parse_small_field(b, 10, 12);
    let s = parse_small_field(b, 12, 14);
    match (y, mo, d, h, mi, s) {
        (Some(y), Some(mo), Some(d), Some(h), Some(mi), Some(s)) => Some((y, mo, d, h, mi, s)),
        _ => None,
    }
}

/// The milliseconds of a packet timestamp (see [`packet_millis`]).
pub fn packet_time_millis(p: &str) -> (res: Option<u32>)
    ensures
        res == packet_millis(p.spec_bytes()),
        res matches Some(m) ==> m <= 999,
{
    let b = p.as_bytes();
    if b.len() < 17 {
        return Some(0);
    }
    parse_small_field(b, 14, 17)
}

/// A leap year of the proleptic Gregorian calendar (year 0 is 1 BCE).
pub open spec fn leap_year(y: int) -> bool {
    (y % 4 == 0 && y % 100 != 0) || y % 400 == 0
}

/// The number of days of month `m` of year `y`.
pub open spec fn days_in_month(y: int, m: int) -> int {
    if m == 2 {
        if leap_year(y) {
            29
        } else {
            28
        }
    } else if m == 4 || m == 6 || m == 9 || m == 11 {
        30
    } else {
        31
    }
}

/// The fields name a date and a time of day of the proleptic Gregorian
/// calendar (no leap second).
pub open spec fn valid_datetime(y: int, mo: int, d: int, h: int, mi: int, s: int) -> bool {
    1 <= mo <= 12 && 1 <= d <= days_in_month(y, mo) && 0 <= h < 24 && 0 <= mi < 60 && 0 <= s < 60
}

/// The days from 1 January of year 0 to 1 January of year `y` (`y` >= 0).
pub open spec fn days_before_year(y: int) -> int
    decreases y,
{
    if y <= 0 {
        0
    } else {
        days_before_year(y - 1) + if leap_year(y - 1) {
            366int
        } else {
            365int
        }
    }
}

/// The days from 1 January to the first of month `m` of year `y`.
pub open spec fn days_before_month(y: int, m: int) -> int
    decreases m,
{
    if m <= 1 {
        0
    } else {
        days_before_month(y, m - 1) + days_in_month(y, m - 1)
    }
}

/// The milliseconds from 1970-01-01 00:00:00 to the wall-clock time the
/// fields name, read as if it were UTC.
pub open spec fn wall_clock_ms(y: int, mo: int, d: int, h: int, mi: int, s: int) -> int {
    ((days_before_year(y) - days_before_year(1970) + days_before_month(y, mo) + d - 1) * 86_400 + h
        * 3600 + mi * 60 + s) * 1000
}

/// `ms` is an instant whose wall-clock time in some zone, at an offset of
/// less than a day from UTC, is what the fields name.
pub open spec fn local_instant_of(y: int, mo: int, d: int, h: int, mi: int, s: int, ms: int) -> bool {
    valid_datetime(y, mo, d, h, mi, s) && wall_clock_ms(y, mo, d, h, mi, s) - 86_400_000 < ms
        < wall_clock_ms(y, mo, d, h, mi, s) + 86_400_000
}

/// `chrono::Local.with_ymd_and_hms(..).single()` as epoch milliseconds
/// (`DateTime::timestamp_millis`): the instant whose local time these fields
/// name, when they name exactly one. Which instant, and whether there is one,
/// depends on the machine's time zone; what is claimed is what chrono's
/// source shows of every outcome: `with_ymd_and_hms` gives none for fields
/// that name no date and time of day (`NaiveDate::from_ymd_opt`,
/// `and_hms_opt`), and the local time differs from UTC by a `FixedOffset`,
/// which is less than a day (`FixedOffset::east_opt`).
#[verifier::external_body]
fn local_millis(y: i32, mo: u32, d: u32, h: u32, mi: u32, s: u32) -> (res: Option<i64>)
    ensures
        res matches Some(ms) ==> valid_datetime(y as int, mo as int, d as int, h as int, mi as int, s as int),
        res matches Some(ms) ==> (y >= 0 ==> local_instant_of(
            y as int,
            mo as int,
            d as int,
            h as int,
            mi as int,
            s as int,
            ms as int,
        )),
{
    match chrono::Local.with_ymd_and_hms(y, mo, d, h, mi, s).single() {
        Some(dt) => Some(dt.timestamp_millis()),
        None => None,
    }
}

/// The epoch milliseconds of a packet timestamp, given the instant its date
/// and time name in local time (`None` when there is no single one) and its
/// milliseconds: that instant plus the milliseconds, or 0 without one.
pub fn packet_instant(local: Option<i64>, millis: u32) -> (res: i64)
    requires
        millis <= 999,
        local matches Some(t) ==> t <= i64::MAX - 999,
    ensures
        res == match local {
            Some(t) => t + millis,
            None => 0,
        },
{
    match local {
        Some(t) => t + millis as i64,
        None => 0,
    }
}

/// `days_before_year` grows by at most a leap year's days a year.
proof fn lemma_days_before_year_bound(y: int)
    requires
        y >= 0,
    ensures
        0 <= days_before_year(y) <= 366 * y,
    decreases y,
{
    if y > 0 {
        lemma_days_before_year_bound(y - 1);
    }
}

/// `days_before_month` grows by at most 31 days a month.
proof fn lemma_days_before_month_bound(y: int, m: int)
    requires
        m >= 1,
    ensures
        0 <= days_before_month(y, m) <= 31 * (m - 1),
    decreases m,
{
    if m > 1 {
        lemma_days_before_month_bound(y, m - 1);
    }
}

/// `YYYYMMDDhhmmssSSS` -> epoch millis (local time); 0 if unparsable. The
/// date, time and milliseconds are parsed as [`packet_fields`] and
/// [`packet_millis`] say; the local instant of the date and time, which the
/// machine's time zone decides, is taken from chrono and the milliseconds
/// added ([`packet_instant`]): see [`packet_time_ms_ok`].
pub fn packet_time_to_ms(p: &str) -> (res: i64)
    ensures
        packet_time_ms_ok(p.spec_bytes(), res as int),
{
    match (packet_time_fields(p), packet_time_millis(p)) {
        (Some((y, mo, d, h, mi, s)), Some(m)) => {
            assert(y as i32 as int == y as int);
            let local = local_millis(y as i32, mo, d, h, mi, s);
            proof {
                if let Some(t) = local {
                    lemma_days_before_year_bound(y as int);
                    lemma_days_before_year_bound(1970);
                    lemma_days_before_month_bound(y as int, mo as int);
                    assert(t < wall_clock_ms(y as int, mo as int, d as int, h as int, mi as int, s as int)
                        + 86_400_000);
                }
            }
            let res = packet_instant(local, m);
            proof {
                if let Some(t) = local {
                    assert(res - m == t);
                }
            }
            res
        },
        _ => 0,
    }
}

// ---------------------------------------------------------------------------
// Telegrams: JSONL lines and raw XML
// ---------------------------------------------------------------------------

/// The members of one JSONL line that classification reads, as plain values
/// (None where the line has no such member of the expected JSON type).
#[derive(Clone, Debug)]
pub struct TelegramFields {
    pub decoded: Option<bool>,
    pub alert_type: Option<String>,
    pub chunk_type: Option<String>,
    pub alert_sub_type: Option<String>,
    pub title: Option<String>,
    pub head_title: Option<String>,
    pub info_type: Option<String>,
    pub headline: Option<String>,
    pub report_time: Option<String>,
    pub packet_time: Option<String>,
    pub channel: Option<String>,
    pub source: Option<String>,
    pub xml: Option<String>,
    pub rx_time_ms: Option<i64>,
}

/// The members of a telegram line as plain values.
pub struct TelegramView {
    pub decoded: Option<bool>,
    pub alert_type: Option<Seq<char>>,
    pub chunk_type: Option<Seq<char>>,
    pub alert_sub_type: Option<Seq<char>>,
    pub title: Option<Seq<char>>,
    pub head_title: Option<Seq<char>>,
    pub info_type: Option<Seq<char>>,
    pub headline: Option<Seq<char>>,
    pub report_time: Option<Seq<char>>,
    pub packet_time: Option<Seq<char>>,
    pub channel: Option<Seq<char>>,
    pub source: Option<Seq<char>>,
    pub xml: Option<Seq<char>>,
    pub rx_time_ms: Option<i64>,
}

impl View for TelegramFields {
    type V = TelegramView;

    open spec fn view(&self) -> TelegramView {
        TelegramView {
            decoded: self.decoded,
            alert_type: opt_view(self.alert_type),
            chunk_type: opt_view(self.chunk_type),
            alert_sub_type: opt_view(self.alert_sub_type),
            title: opt_view(self.title),
            head_title: opt_view(self.head_title),
            info_type: opt_view(self.info_type),
            headline: opt_view(self.headline),
            report_time: opt_view(self.report_time),
            packet_time: opt_view(self.packet_time),
            channel: opt_view(self.channel),
            source: opt_view(self.source),
            xml: opt_view(self.xml),
            rx_time_ms: self.rx_time_ms,
        }
    }
}

/// A member's text, empty when missing.
pub open spec fn text_or_empty(o: Option<Seq<char>>) -> Seq<char> {
    match o {
        Some(t) => t,
        None => Seq::empty(),
    }
}

/// The telegram type code: `alert_type`, else the plugin's `chunk_type`.
pub open spec fn telegram_type(f: TelegramView) -> AlertType {
    let at = text_or_empty(f.alert_type);
    type_of_code(
        if at.len() > 0 {
            at
        } else {
            text_or_empty(f.chunk_type)
        },
    )
}

/// 情報種別: `alert_sub_type`, else inferred from the type code.
pub open spec fn telegram_category(f: TelegramView) -> Category {
    let sub = text_or_empty(f.alert_sub_type);
    if sub.len() > 0 {
        category_of_sub_type(sub)
    } else if telegram_type(f) == AlertType::Wrma {
        Category::Weather
    } else {
        category_of_type(telegram_type(f))
    }
}

/// A line is classifiable: decoded, and carrying XML or a known type code.
pub open spec fn telegram_usable(f: TelegramView) -> bool {
    f.decoded == Some(true) && !(text_or_empty(f.xml).len() == 0 && telegram_type(f)
        == AlertType::Unknown)
}

/// The channel a usable line describes before its XML is read.
pub open spec fn base_channel(f: TelegramView) -> ChannelView {
    let c = text_or_empty(f.channel);
    ChannelView {
        key: Seq::empty(),
        alert_type: telegram_type(f),
        category: telegram_category(f),
        allowed: true,
        title: text_or_empty(f.title),
        head_title: text_or_empty(f.head_title),
        area_name: Seq::empty(),
        sub_type: text_or_empty(f.alert_sub_type),
        info_type: text_or_empty(f.info_type),
        headline: text_or_empty(f.headline),
        report_time: text_or_empty(f.report_time),
        packet_time: text_or_empty(f.packet_time),
        rx_time_ms: match f.rx_time_ms {
            Some(ms) => ms,
            None => 0,
        },
        channel: channel_of(
            if c.len() > 0 {
                c
            } else {
                text_or_empty(f.source)
            },
        ),
        severity: Severity::Clear,
        kinds: Seq::empty(),
        areas: Seq::empty(),
        xml: text_or_empty(f.xml),
    }
}

/// What the telegram's XML adds: head fields, then weather grading or the
/// earthquake summary according to the category.
pub open spec fn xml_enriched(ns: Seq<XmlNodeView>, c: ChannelView) -> ChannelView {
    let h = head_applied(ns, c);
    if h.category == Category::Weather {
        weather_graded(ns, h)
    } else if h.category == Category::Earthquake || h.category == Category::SeismicIntensity {
        quake_applied(ns, h)
    } else {
        h
    }
}

/// The de-duplication area of a channel: head title, else title, else
/// packet time.
pub open spec fn key_area(c: ChannelView) -> Seq<char> {
    if c.head_title.len() > 0 {
        c.head_title
    } else if c.title.len() > 0 {
        c.title
    } else {
        c.packet_time
    }
}

/// The channel with its key: 情報種別名 `|` area.
pub open spec fn keyed(c: ChannelView) -> ChannelView {
    ChannelView { key: category_label(c.category) + "|"@ + key_area(c), ..c }
}

/// The channel a telegram line describes, given what its `xml` member parses
/// to (used only when that member is not empty); None for lines that carry no
/// usable telegram.
pub open spec fn telegram_channel(f: TelegramView, xml: Option<Seq<XmlNodeView>>) -> Option<
    ChannelView,
> {
    if !telegram_usable(f) {
        None
    } else {
        let base = base_channel(f);
        let c = if base.xml.len() > 0 {
            match xml {
                Some(ns) => xml_enriched(ns, base),
                None => base,
            }
        } else {
            base
        };
        Some(keyed(c))
    }
}

/// The view of an optional channel.
pub open spec fn channel_view_opt(o: Option<AlertChannel>) -> Option<ChannelView> {
    match o {
        Some(c) => Some(c@),
        None => None,
    }
}

/// The view of an optional parsed document.
pub open spec fn doc_view_opt(o: Option<&XmlDoc>) -> Option<Seq<XmlNodeView>> {
    match o {
        Some(d) => Some(d@),
        None => None,
    }
}

/// A member's text, empty when missing.
fn member_text(o: &Option<String>) -> (res: String)
    ensures
        res@ == text_or_empty(opt_view(*o)),
{
    match o {
        Some(t) => t.clone(),
        None => String::new(),
    }
}

/// Sets the key of a channel: 情報種別名 `|` head title, else title, else
/// packet time.
fn set_key(ch: &mut AlertChannel)
    ensures
        final(ch)@ == keyed(old(ch)@),
{
    let mut key = concat2(ch.category.label(), "|");
    if !ch.head_title.as_str().is_empty() {
        key.append(ch.head_title.as_str());
    } else if !ch.title.as_str().is_empty() {
        key.append(ch.title.as_str());
    } else {
        key.append(ch.packet_time.as_str());
    }
    ch.key = key;
    assert(final(ch)@ =~= keyed(old(ch)@));
}

/// Reads head fields, and grades weather or summarises an earthquake,
/// according to the category.
fn enrich_from_xml(doc: &XmlDoc, ch: &mut AlertChannel)
    ensures
        final(ch)@ == xml_enriched(doc@, old(ch)@),
{
    apply_head_fields(doc, ch);
    if ch.category == Category::Weather {
        classify_weather_doc(doc, ch);
    } else if ch.category == Category::Earthquake || ch.category == Category::SeismicIntensity {
        apply_quake_fields(doc, ch);
    }
}

/// The channel a telegram describes, given its members and what its `xml`
/// member parsed to; None for lines that carry no usable telegram (not
/// decoded, or with neither XML nor a known type code).
pub fn from_telegram(f: &TelegramFields, xml: Option<&XmlDoc>) -> (res: Option<AlertChannel>)
    ensures
        channel_view_opt(res) == telegram_channel(f@, doc_view_opt(xml)),
{
    if f.decoded != Some(true) {
        return None;
    }
    let xml_text = member_text(&f.xml);
    let type_code = {
        let at = member_text(&f.alert_type);
        if !at.as_str().is_empty() {
            at
        } else {
            member_text(&f.chunk_type)
        }
    };
    let alert_type = AlertType::from_code(type_code.as_str());
    let sub = member_text(&f.alert_sub_type);
    let category = if !sub.as_str().is_empty() {
        Category::from_sub_type(sub.as_str())
    } else if alert_type == AlertType::Wrma {
        Category::Weather
    } else {
        Category::from_alert_type(alert_type)
    };
    if xml_text.as_str().is_empty() && alert_type == AlertType::Unknown {
        return None;
    }
    let channel_text = {
        let c = member_text(&f.channel);
        if !c.as_str().is_empty() {
            c
        } else {
            member_text(&f.source)
        }
    };
    let mut ch = AlertChannel {
        key: String::new(),
        alert_type,
        category,
        allowed: true,
        title: member_text(&f.title),
        head_title: member_text(&f.head_title),
        area_name: String::new(),
        sub_type: sub,
        info_type: member_text(&f.info_type),
        headline: member_text(&f.headline),
        report_time: member_text(&f.report_time),
        packet_time: member_text(&f.packet_time),
        rx_time_ms: match f.rx_time_ms {
            Some(ms) => ms,
            None => 0,
        },
        channel: RxChannel::from_str(channel_text.as_str()),
        severity: Severity::Clear,
        kinds: Vec::new(),
        areas: Vec::new(),
        xml: xml_text,
    };
    assert(ch@ =~= base_channel(f@));
    if !ch.xml.as_str().is_empty() {
        match xml {
            Some(doc) => enrich_from_xml(doc, &mut ch),
            None => {},
        }
    }
    set_key(&mut ch);
    Some(ch)
}

/// The members of the JSON line `text` as plain values.
pub open spec fn json_telegram(text: Seq<char>) -> TelegramView {
    TelegramView {
        decoded: json_bool_member(text, "decoded"@),
        alert_type: json_str_member(text, "alert_type"@),
        chunk_type: json_str_member(text, "chunk_type"@),
        alert_sub_type: json_str_member(text, "alert_sub_type"@),
        title: json_str_member(text, "title"@),
        head_title: json_str_member(text, "head_title"@),
        info_type: json_str_member(text, "info_type"@),
        headline: json_str_member(text, "headline"@),
        report_time: json_str_member(text, "report_time"@),
        packet_time: json_str_member(text, "packet_time"@),
        channel: json_str_member(text, "channel"@),
        source: json_str_member(text, "source"@),
        xml: json_str_member(text, "xml"@),
        rx_time_ms: json_i64_member(text, "rx_time_ms"@),
    }
}

/// The channel a JSONL line describes: the line is trimmed, parsed as JSON,
/// its members read and its `xml` member parsed as XML.
pub open spec fn line_channel(line: Seq<char>) -> Option<ChannelView> {
    let t = trim(line);
    if t.len() == 0 || !json_accepts(t) {
        None
    } else {
        let f = json_telegram(t);
        if f.decoded != Some(true) {
            None
        } else {
            let x = text_or_empty(f.xml);
            telegram_channel(
                f,
                if x.len() > 0 {
                    xml_nodes(x)
                } else {
                    None
                },
            )
        }
    }
}

/// Classifies one JSONL line from the plugin; None for lines that carry no
/// usable telegram.
pub fn from_json_line(line: &str) -> (res: Option<AlertChannel>)
    ensures
        channel_view_opt(res) == line_channel(line@),
{
    let t = trimmed(line);
    if t.as_str().is_empty() {
        return None;
    }
    let doc = match JsonDoc::parse(t.as_str()) {
        Some(d) => d,
        None => return None,
    };
    let f = TelegramFields {
        decoded: doc.bool_member("decoded"),
        alert_type: doc.str_member("alert_type"),
        chunk_type: doc.str_member("chunk_type"),
        alert_sub_type: doc.str_member("alert_sub_type"),
        title: doc.str_member("title"),
        head_title: doc.str_member("head_title"),
        info_type: doc.str_member("info_type"),
        headline: doc.str_member("headline"),
        report_time: doc.str_member("report_time"),
        packet_time: doc.str_member("packet_time"),
        channel: doc.str_member("channel"),
        source: doc.str_member("source"),
        xml: doc.str_member("xml"),
        rx_time_ms: doc.i64_member("rx_time_ms"),
    };
    assert(f@ =~= json_telegram(t@));
    if f.decoded != Some(true) {
        return None;
    }
    let xml_text = member_text(&f.xml);
    let parsed = if !xml_text.as_str().is_empty() {
        parse_xml(xml_text.as_str())
    } else {
        None
    };
    match parsed {
        Some(d) => from_telegram(&f, Some(&d)),
        None => from_telegram(&f, None),
    }
}

/// The channel a raw JMA XML telegram describes, given its nodes, its text,
/// the packet time from its file name and the receive time.
pub open spec fn xml_channel(
    ns: Seq<XmlNodeView>,
    xml: Seq<char>,
    packet_time: Seq<char>,
    rx_time_ms: i64,
) -> ChannelView {
    let control = first_text_of(ns, "Title"@);
    let info_kind = first_text_of(ns, "InfoKind"@);
    let category = detected_category(control, info_kind);
    let base = ChannelView {
        key: Seq::empty(),
        alert_type: type_for_category(category),
        category: category,
        allowed: true,
        title: Seq::empty(),
        head_title: Seq::empty(),
        area_name: Seq::empty(),
        sub_type: if info_kind.len() == 0 {
            control
        } else {
            info_kind
        },
        info_type: Seq::empty(),
        headline: Seq::empty(),
        report_time: Seq::empty(),
        packet_time: packet_time,
        rx_time_ms: rx_time_ms,
        channel: RxChannel::Satellite,
        severity: Severity::Clear,
        kinds: Seq::empty(),
        areas: Seq::empty(),
        xml: xml,
    };
    keyed(xml_enriched(ns, base))
}

/// Builds a channel from a parsed raw JMA XML telegram (no JSON wrapper).
pub fn from_xml_doc(doc: &XmlDoc, xml: &str, packet_time: &str, rx_time_ms: i64) -> (res:
    AlertChannel)
    ensures
        res@ == xml_channel(doc@, xml@, packet_time@, rx_time_ms),
{
    let control = doc.first_text("Title");
    let info_kind = doc.first_text("InfoKind");
    let category = detect_category(control.as_str(), info_kind.as_str());
    let alert_type = alert_type_for(category);
    let sub_type = if info_kind.as_str().is_empty() {
        control
    } else {
        info_kind
    };
    let mut ch = AlertChannel {
        key: String::new(),
        alert_type,
        category,
        allowed: true,
        title: String::new(),
        head_title: String::new(),
        area_name: String::new(),
        sub_type,
        info_type: String::new(),
        headline: String::new(),
        report_time: String::new(),
        packet_time: packet_time.to_owned(),
        rx_time_ms,
        channel: RxChannel::Satellite,
        severity: Severity::Clear,
        kinds: Vec::new(),
        areas: Vec::new(),
        xml: xml.to_owned(),
    };
    enrich_from_xml(doc, &mut ch);
    set_key(&mut ch);
    ch
}

/// Builds a channel straight from a raw JMA XML telegram (no JSON wrapper),
/// as for a replayed `.xml` archive; `packet_time` is the 17-digit timestamp
/// from the file name (or empty). None when the XML does not parse.
pub fn from_xml(xml: &str, packet_time: &str) -> (res: Option<AlertChannel>)
    ensures
        match xml_nodes(xml@) {
            None => res is None,
            Some(ns) => res matches Some(c) && c@ == xml_channel(ns, xml@, packet_time@, c.rx_time_ms)
                && packet_time_ms_ok(packet_time.spec_bytes(), c.rx_time_ms as int),
        },
{
    let doc = match parse_xml(xml) {
        Some(d) => d,
        None => return None,
    };
    let rx = packet_time_to_ms(packet_time);
    Some(from_xml_doc(&doc, xml, packet_time, rx))
}


// ---------------------------------------------------------------------------
// Laws of weather grading
// ---------------------------------------------------------------------------

/// A telegram code's default category is broadcast under that code: the
/// code a raw XML telegram of that category gets is the code back.
pub proof fn law_code_category_round_trip(t: AlertType)
    ensures
        type_for_category(category_of_type(t)) == t,
{
}

/// The kinds come most severe first.
pub open spec fn most_severe_first(ks: Seq<KindView>) -> bool {
    forall|p: int, q: int| 0 <= p < q < ks.len() ==> level((#[trigger] ks[p]).2) >= level((#[trigger] ks[q]).2)
}

/// No two kinds share a name.
pub open spec fn names_distinct(ks: Seq<KindView>) -> bool {
    forall|p: int, q: int| 0 <= p < q < ks.len() ==> (#[trigger] ks[p]).0 != (#[trigger] ks[q]).0
}

/// Weather grading lists the kinds in force most severe first and one per
/// name, and grades the channel with the highest of their severities: no
/// listed kind is above it, and the first listed kind has it.
pub proof fn law_weather_grading(ns: Seq<XmlNodeView>, c: ChannelView)
    requires
        warning_of(ns) is Some,
    ensures
        most_severe_first(weather_graded(ns, c).kinds),
        names_distinct(weather_graded(ns, c).kinds),
        forall|i: int|
            0 <= i < weather_graded(ns, c).kinds.len() ==> level(
                (#[trigger] weather_graded(ns, c).kinds[i]).2,
            ) <= level(weather_graded(ns, c).severity),
        weather_graded(ns, c).kinds.len() > 0 ==> weather_graded(ns, c).kinds[0].2 == weather_graded(
            ns,
            c,
        ).severity,
        forall|i: int|
            0 <= i < weather_graded(ns, c).kinds.len() ==> in_force(
                #[trigger] weather_graded(ns, c).kinds[i],
            ),
{
    let w = warning_of(ns)->0;
    let ks = warning_kinds(ns, w, ns.len() as int);
    let bs = by_severity(ks);
    let g = weather_graded(ns, c);
    assert(g.kinds == dedup_names(bs));
    assert(g.severity == top_of(ks));
    lemma_by_severity(ks);
    lemma_dedup_sorted(bs);
    lemma_dedup_distinct(bs);
    lemma_dedup_from(bs);
    lemma_top_of(ks);
    lemma_warning_kinds_in_force(ns, w, ns.len() as int);
    assert forall|i: int| 0 <= i < g.kinds.len() implies level((#[trigger] g.kinds[i]).2) <= level(
        g.severity,
    ) && in_force(g.kinds[i]) by {
        assert(bs.contains(g.kinds[i]));
        let j = choose|j: int| 0 <= j < bs.len() && bs[j] == g.kinds[i];
        assert(ks.contains(bs[j]));
    }
    if g.kinds.len() > 0 {
        lemma_dedup_first(bs);
        lemma_by_severity_first(ks);
    }
}

/// Every kind an Item contributes is in force.
proof fn lemma_item_kinds_in_force(ns: Seq<XmlNodeView>, item: int, m: int)
    ensures
        forall|i: int|
            0 <= i < item_kinds(ns, item, m).len() ==> in_force(#[trigger] item_kinds(ns, item, m)[i]),
    decreases m,
{
    if m > 0 {
        lemma_item_kinds_in_force(ns, item, m - 1);
        let p = item_kinds(ns, item, m - 1);
        let k = item_kinds(ns, item, m);
        assert forall|i: int| 0 <= i < k.len() implies in_force(#[trigger] k[i]) by {
            if i < p.len() {
                assert(k[i] == p[i]);
            }
        }
    }
}

/// Every kind a Warning block contributes is in force.
proof fn lemma_warning_kinds_in_force(ns: Seq<XmlNodeView>, w: int, n: int)
    ensures
        forall|i: int| 0 <= i < warning_kinds(ns, w, n).len() ==> in_force(#[trigger] warning_kinds(ns, w, n)[i]),
    decreases n,
{
    if n > 0 {
        lemma_warning_kinds_in_force(ns, w, n - 1);
        lemma_item_kinds_in_force(ns, n - 1, ns.len() as int);
        let p = warning_kinds(ns, w, n - 1);
        let k = warning_kinds(ns, w, n);
        let extra = item_kinds(ns, n - 1, ns.len() as int);
        assert forall|i: int| 0 <= i < k.len() implies in_force(#[trigger] k[i]) by {
            if i < p.len() {
                assert(k[i] == p[i]);
            } else {
                assert(k[i] == extra[i - p.len()]);
            }
        }
    }
}

/// The kinds of one severity: all of that severity, all from `ks`, and
/// present exactly when `ks` has one.
proof fn lemma_kinds_with(ks: Seq<KindView>, s: Severity)
    ensures
        forall|i: int|
            0 <= i < kinds_with(ks, s).len() ==> (#[trigger] kinds_with(ks, s)[i]).2 == s && ks.contains(
                kinds_with(ks, s)[i],
            ),
        kinds_with(ks, s).len() > 0 <==> exists|i: int| 0 <= i < ks.len() && (#[trigger] ks[i]).2 == s,
    decreases ks.len(),
{
    if ks.len() > 0 {
        let d = ks.drop_last();
        lemma_kinds_with(d, s);
        let k = kinds_with(ks, s);
        let kd = kinds_with(d, s);
        assert forall|i: int| 0 <= i < k.len() implies (#[trigger] k[i]).2 == s && ks.contains(k[i]) by {
            if i < kd.len() {
                assert(k[i] == kd[i]);
                let j = choose|j: int| 0 <= j < d.len() && d[j] == kd[i];
                assert(ks[j] == d[j]);
            } else {
                assert(k[i] == ks.last());
                assert(ks[ks.len() - 1] == ks.last());
            }
        }
        if exists|i: int| 0 <= i < ks.len() && (#[trigger] ks[i]).2 == s {
            let i = choose|i: int| 0 <= i < ks.len() && (#[trigger] ks[i]).2 == s;
            if i < ks.len() - 1 {
                assert(d[i] == ks[i]);
            }
        }
        if exists|i: int| 0 <= i < d.len() && (#[trigger] d[i]).2 == s {
            let i = choose|i: int| 0 <= i < d.len() && (#[trigger] d[i]).2 == s;
            assert(ks[i] == d[i]);
        }
    }
}

/// The severity buckets in order: every kind of `by_severity` comes from
/// `ks`, and they come most severe first.
proof fn lemma_by_severity(ks: Seq<KindView>)
    ensures
        most_severe_first(by_severity(ks)),
        forall|i: int| 0 <= i < by_severity(ks).len() ==> ks.contains(#[trigger] by_severity(ks)[i]),
{
    let e = kinds_with(ks, Severity::Emergency);
    let w = kinds_with(ks, Severity::Warning);
    let a = kinds_with(ks, Severity::Advisory);
    let z = kinds_with(ks, Severity::Clear);
    lemma_kinds_with(ks, Severity::Emergency);
    lemma_kinds_with(ks, Severity::Warning);
    lemma_kinds_with(ks, Severity::Advisory);
    lemma_kinds_with(ks, Severity::Clear);
    let bs = by_severity(ks);
    assert(bs == e + w + a + z);
    let ne = e.len() as int;
    let nw = ne + w.len();
    let na = nw + a.len();
    assert forall|i: int| 0 <= i < bs.len() implies ks.contains(#[trigger] bs[i]) && level(bs[i].2) == (
    if i < ne {
        3int
    } else if i < nw {
        2int
    } else if i < na {
        1int
    } else {
        0int
    }) by {
        if i < ne {
            assert(bs[i] == e[i]);
        } else if i < nw {
            assert(bs[i] == w[i - ne]);
        } else if i < na {
            assert(bs[i] == a[i - nw]);
        } else {
            assert(bs[i] == z[i - na]);
        }
    }
}

/// The first kind of `by_severity` has the top severity.
proof fn lemma_by_severity_first(ks: Seq<KindView>)
    requires
        by_severity(ks).len() > 0,
    ensures
        by_severity(ks)[0].2 == top_of(ks),
{
    let e = kinds_with(ks, Severity::Emergency);
    let w = kinds_with(ks, Severity::Warning);
    let a = kinds_with(ks, Severity::Advisory);
    let z = kinds_with(ks, Severity::Clear);
    lemma_kinds_with(ks, Severity::Emergency);
    lemma_kinds_with(ks, Severity::Warning);
    lemma_kinds_with(ks, Severity::Advisory);
    lemma_kinds_with(ks, Severity::Clear);
    lemma_top_of(ks);
    let bs = by_severity(ks);
    assert(bs == e + w + a + z);
    let t = top_of(ks);
    if e.len() > 0 {
        assert(bs[0] == e[0]);
        let i = choose|i: int| 0 <= i < ks.len() && (#[trigger] ks[i]).2 == Severity::Emergency;
        assert(level(ks[i].2) <= level(t));
    } else if w.len() > 0 {
        assert(bs[0] == w[0]);
        let i = choose|i: int| 0 <= i < ks.len() && (#[trigger] ks[i]).2 == Severity::Warning;
        assert(level(ks[i].2) <= level(t));
        assert(t != Severity::Emergency);
    } else if a.len() > 0 {
        assert(bs[0] == a[0]);
        let i = choose|i: int| 0 <= i < ks.len() && (#[trigger] ks[i]).2 == Severity::Advisory;
        assert(level(ks[i].2) <= level(t));
        assert(t != Severity::Emergency && t != Severity::Warning);
    } else {
        assert(bs[0] == z[0]);
        assert(t != Severity::Emergency && t != Severity::Warning && t != Severity::Advisory);
    }
}

/// The top severity bounds every kind and, unless there are none, is one
/// of theirs.
proof fn lemma_top_of(ks: Seq<KindView>)
    ensures
        forall|i: int| 0 <= i < ks.len() ==> level((#[trigger] ks[i]).2) <= level(top_of(ks)),
        ks.len() > 0 ==> exists|i: int| 0 <= i < ks.len() && (#[trigger] ks[i]).2 == top_of(ks),
    decreases ks.len(),
{
    if ks.len() > 0 {
        let d = ks.drop_last();
        lemma_top_of(d);
        assert forall|i: int| 0 <= i < ks.len() implies level((#[trigger] ks[i]).2) <= level(
            top_of(ks),
        ) by {
            if i < ks.len() - 1 {
                assert(d[i] == ks[i]);
            }
        }
        if top_of(ks) == ks.last().2 {
            assert(ks[ks.len() - 1] == ks.last());
        } else {
            let i = choose|i: int| 0 <= i < d.len() && (#[trigger] d[i]).2 == top_of(d);
            assert(ks[i] == d[i]);
        }
    }
}

/// Every kind kept by `dedup_names` comes from the list.
proof fn lemma_dedup_from(ks: Seq<KindView>)
    ensures
        forall|i: int| 0 <= i < dedup_names(ks).len() ==> ks.contains(#[trigger] dedup_names(ks)[i]),
    decreases ks.len(),
{
    if ks.len() > 0 {
        let d = ks.drop_last();
        lemma_dedup_from(d);
        let dd = dedup_names(d);
        assert forall|i: int| 0 <= i < dedup_names(ks).len() implies ks.contains(
            #[trigger] dedup_names(ks)[i],
        ) by {
            if i < dd.len() {
                assert(dedup_names(ks)[i] == dd[i]);
                let j = choose|j: int| 0 <= j < d.len() && d[j] == dd[i];
                assert(ks[j] == d[j]);
            } else {
                assert(dedup_names(ks)[i] == ks.last());
                assert(ks[ks.len() - 1] == ks.last());
            }
        }
    }
}

/// `dedup_names` keeps the order of a most-severe-first list.
proof fn lemma_dedup_sorted(ks: Seq<KindView>)
    requires
        most_severe_first(ks),
    ensures
        most_severe_first(dedup_names(ks)),
    decreases ks.len(),
{
    if ks.len() > 0 {
        let d = ks.drop_last();
        assert(most_severe_first(d)) by {
            assert forall|p: int, q: int| 0 <= p < q < d.len() implies level((#[trigger] d[p]).2) >= level(
                (#[trigger] d[q]).2,
            ) by {
                assert(d[p] == ks[p]);
                assert(d[q] == ks[q]);
            }
        }
        lemma_dedup_sorted(d);
        lemma_dedup_from(d);
        let dd = dedup_names(d);
        if !has_name(dd, ks.last().0) {
            let r = dd.push(ks.last());
            assert forall|p: int, q: int| 0 <= p < q < r.len() implies level((#[trigger] r[p]).2) >= level(
                (#[trigger] r[q]).2,
            ) by {
                if q == dd.len() {
                    assert(r[p] == dd[p]);
                    assert(d.contains(dd[p]));
                    let j = choose|j: int| 0 <= j < d.len() && d[j] == dd[p];
                    assert(ks[j] == d[j]);
                    assert(ks[ks.len() - 1] == ks.last());
                } else {
                    assert(r[p] == dd[p]);
                    assert(r[q] == dd[q]);
                }
            }
        }
    }
}

/// `dedup_names` keeps one kind per name.
proof fn lemma_dedup_distinct(ks: Seq<KindView>)
    ensures
        names_distinct(dedup_names(ks)),
    decreases ks.len(),
{
    if ks.len() > 0 {
        let d = ks.drop_last();
        lemma_dedup_distinct(d);
        let dd = dedup_names(d);
        if !has_name(dd, ks.last().0) {
            let r = dd.push(ks.last());
            assert forall|p: int, q: int| 0 <= p < q < r.len() implies (#[trigger] r[p]).0 != (
            #[trigger] r[q]).0 by {
                assert(r[p] == dd[p]);
                if q == dd.len() {
                    assert(r[q] == ks.last());
                    assert(dd[p].0 != ks.last().0);
                } else {
                    assert(r[q] == dd[q]);
                }
            }
        }
    }
}

/// `dedup_names` keeps the first kind first.
proof fn lemma_dedup_first(ks: Seq<KindView>)
    requires
        ks.len() > 0,
    ensures
        dedup_names(ks).len() > 0,
        dedup_names(ks)[0] == ks[0],
    decreases ks.len(),
{
    let d = ks.drop_last();
    if d.len() == 0 {
        assert(dedup_names(d).len() == 0);
        assert(!has_name(dedup_names(d), ks.last().0));
        assert(ks.last() == ks[0]);
    } else {
        lemma_dedup_first(d);
        assert(d[0] == ks[0]);
    }
}


/// A channel's de-duplication key names its own head title whenever it has
/// one: the key is the category's 情報種別名, `|` and the head title. So two
/// channels of one category with different non-empty head titles (two
/// prefectures' weather warnings, say) get different keys and are kept
/// apart.
pub proof fn law_key_keeps_head_titles_apart(a: ChannelView, b: ChannelView)
    requires
        a.head_title.len() > 0,
    ensures
        keyed(a).key == category_label(a.category) + "|"@ + a.head_title,
        keyed(a).key.len() >= a.head_title.len(),
        keyed(a).key.skip(keyed(a).key.len() - a.head_title.len()) == a.head_title,
        b.category == a.category && b.head_title.len() > 0 && b.head_title != a.head_title
            ==> keyed(a).key != keyed(b).key,
{
    let pa = category_label(a.category) + "|"@;
    let ka = keyed(a).key;
    assert(ka == pa + a.head_title);
    assert(ka.skip(pa.len() as int) =~= a.head_title);
    assert(ka.skip(ka.len() - a.head_title.len()) =~= a.head_title);
    if b.category == a.category && b.head_title.len() > 0 && b.head_title != a.head_title {
        let kb = keyed(b).key;
        assert(kb == pa + b.head_title);
        assert(kb.skip(pa.len() as int) =~= b.head_title);
        if ka == kb {
            assert(a.head_title == b.head_title);
        }
    }
}

/// A needle without a space occurs in `a`, a space and `b` exactly when it
/// occurs in `a` or in `b`.
proof fn lemma_contains_spaced(a: Seq<char>, b: Seq<char>, k: Seq<char>)
    requires
        k.len() > 0,
        forall|j: int| 0 <= j < k.len() ==> k[j] != ' ',
    ensures
        seq_contains(a + " "@ + b, k) <==> seq_contains(a, k) || seq_contains(b, k),
{
    reveal_strlit(" ");
    let s = a + " "@ + b;
    let n = k.len() as int;
    assert(s.len() == a.len() + 1 + b.len());
    if seq_contains(a, k) {
        let i = choose|i: int| occurs_at(a, k, i);
        assert(s.subrange(i, i + n) =~= a.subrange(i, i + n));
        assert(occurs_at(s, k, i));
    }
    if seq_contains(b, k) {
        let i = choose|i: int| occurs_at(b, k, i);
        let o = a.len() + 1;
        assert(s.subrange(o + i, o + i + n) =~= b.subrange(i, i + n));
        assert(occurs_at(s, k, o + i));
    }
    if seq_contains(s, k) {
        let i = choose|i: int| occurs_at(s, k, i);
        if i + n <= a.len() {
            assert(a.subrange(i, i + n) =~= s.subrange(i, i + n));
            assert(occurs_at(a, k, i));
        } else if i >= a.len() + 1 {
            let o = a.len() + 1;
            assert(b.subrange(i - o, i - o + n) =~= s.subrange(i, i + n));
            assert(occurs_at(b, k, i - o));
        } else {
            let j = a.len() - i;
            assert(s[a.len() as int] == ' ');
            assert(s.subrange(i, i + n)[j] == s[i + j]);
            assert(k[j] == ' ');
        }
    }
}

/// A raw telegram about a tsunami is a tsunami report: when its
/// Control/Title or InfoKind contains 津波 and neither names an earthquake
/// (緊急地震速報, 震度速報, 地震, 震源), its category is Tsunami, broadcast
/// under ISSW.
pub proof fn law_tsunami_telegrams(control_title: Seq<char>, info_kind: Seq<char>)
    requires
        seq_contains(control_title, "津波"@) || seq_contains(info_kind, "津波"@),
        !seq_contains(control_title, "緊急地震速報"@) && !seq_contains(info_kind, "緊急地震速報"@),
        !seq_contains(control_title, "震度速報"@) && !seq_contains(info_kind, "震度速報"@),
        !seq_contains(control_title, "地震"@) && !seq_contains(info_kind, "地震"@),
        !seq_contains(control_title, "震源"@) && !seq_contains(info_kind, "震源"@),
    ensures
        detected_category(control_title, info_kind) == Category::Tsunami,
        type_for_category(detected_category(control_title, info_kind)) == AlertType::Issw,
{
    reveal_strlit("津波");
    reveal_strlit("緊急地震速報");
    reveal_strlit("震度速報");
    reveal_strlit("地震");
    reveal_strlit("震源");
    lemma_contains_spaced(control_title, info_kind, "津波"@);
    lemma_contains_spaced(control_title, info_kind, "緊急地震速報"@);
    lemma_contains_spaced(control_title, info_kind, "震度速報"@);
    lemma_contains_spaced(control_title, info_kind, "地震"@);
    lemma_contains_spaced(control_title, info_kind, "震源"@);
}

} // verus!
