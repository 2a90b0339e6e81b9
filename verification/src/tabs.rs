//! The tabs of a browser: the table of those that were told of, and its listing.

use crate::json::{Json, JsonView};
use crate::{json, json_text};
use std::collections::HashMap;
use vstd::prelude::*;

verus! {

broadcast use vstd::std_specs::hash::group_hash_axioms;

/// A tab of a browser.
#[derive(Debug, Clone)]
pub struct BrowserTab {
    pub id: i64,
    pub url: String,
    pub title: String,
    pub active: bool,
    pub window_id: Option<i64>,
}

/// What a tab is.
pub struct TabView {
    pub id: i64,
    pub url: Seq<char>,
    pub title: Seq<char>,
    pub active: bool,
    pub window_id: Option<i64>,
}

impl View for BrowserTab {
    type V = TabView;

    open spec fn view(&self) -> TabView {
        TabView {
            id: self.id,
            url: self.url@,
            title: self.title@,
            active: self.active,
            window_id: self.window_id,
        }
    }
}

/// What the tabs of a row are.
pub open spec fn tabs_view(tabs: Seq<BrowserTab>) -> Seq<TabView> {
    Seq::new(tabs.len(), |i: int| tabs[i]@)
}

/// A tab as it is told to others.
pub open spec fn tab_json(tab: TabView) -> JsonView {
    json::empty_object().with("id"@, JsonView::Number(json_text::integer_number(tab.id))).with(
        "url"@,
        JsonView::Str(tab.url),
    ).with("title"@, JsonView::Str(tab.title)).with("active"@, JsonView::Bool(tab.active)).with(
        "windowId"@,
        match tab.window_id {
            Some(window) => JsonView::Number(json_text::integer_number(window)),
            None => JsonView::Null,
        },
    )
}

/// Tabs as they are told to others.
pub open spec fn tabs_json(tabs: Seq<TabView>) -> JsonView {
    JsonView::Array(Seq::new(tabs.len(), |i: int| tab_json(tabs[i])))
}

impl BrowserTab {
    /// A copy of the tab.
    pub fn copy(&self) -> (result: BrowserTab)
        ensures
            result@ == self@,
    {
        BrowserTab {
            id: self.id,
            url: self.url.clone(),
            title: self.title.clone(),
            active: self.active,
            window_id: self.window_id,
        }
    }

    /// The tab as it is told to others.
    pub fn to_json(&self) -> (result: Json)
        ensures
            result@ == tab_json(self@),
    {
        let window = match self.window_id {
            Some(window) => json_text::integer(window),
            None => Json::Null,
        };
        Json::object().with("id", json_text::integer(self.id)).with(
            "url",
            Json::string(&self.url),
        ).with("title", Json::string(&self.title)).with("active", Json::Bool(self.active)).with(
            "windowId",
            window,
        )
    }
}

/// Tabs as they are told to others.
pub fn tabs_to_json(tabs: &Vec<BrowserTab>) -> (result: Json)
    ensures
        result@ == tabs_json(tabs_view(tabs@)),
{
    let mut items: Vec<Json> = Vec::new();
    for i in 0..tabs.len()
        invariant
            items@.len() == i,
            forall|j: int| 0 <= j < i ==> (#[trigger] items@[j])@ == tab_json(tabs@[j]@),
    {
        items.push(tabs[i].to_json());
    }
    assert(json::items_view(items@) =~= tabs_json(tabs_view(tabs@))->Array_0);
    Json::array(items)
}

// ===== The table =====

/// A table of tabs once those of a row are told of, one after the other.
pub open spec fn with_tabs(table: Map<i64, TabView>, tabs: Seq<TabView>) -> Map<i64, TabView>
    decreases tabs.len(),
{
    if tabs.len() == 0 {
        table
    } else {
        with_tabs(table, tabs.drop_last()).insert(tabs.last().id, tabs.last())
    }
}

/// Whether each tab of a table stands under its own number.
pub open spec fn is_table(table: Map<i64, TabView>) -> bool {
    &&& table.dom().finite()
    &&& forall|id: i64| table.contains_key(id) ==> (#[trigger] table[id]).id == id
}

/// Whether one tab is listed before another: active tabs first, and then by number.
pub open spec fn listed_before(a: TabView, b: TabView) -> bool {
    if a.active == b.active {
        a.id < b.id
    } else {
        a.active
    }
}

/// Whether a row lists the tabs of a table: each of them once, in order.
pub open spec fn is_listing(list: Seq<TabView>, table: Map<i64, TabView>) -> bool {
    &&& in_order(list)
    &&& forall|i: int|
        0 <= i < list.len() ==> table.contains_key((#[trigger] list[i]).id) && table[list[i].id]
            == list[i]
    &&& forall|id: i64| table.contains_key(id) ==> list.contains(#[trigger] table[id])
}

/// Whether the tabs of a row are in order.
pub open spec fn in_order(list: Seq<TabView>) -> bool {
    forall|i: int, j: int|
        0 <= i < j < list.len() ==> listed_before(#[trigger] list[i], #[trigger] list[j])
}

/// A listing with a further tab in its place lists the table with that tab.
proof fn lemma_listing_insert(
    list: Seq<TabView>,
    table: Map<i64, TabView>,
    place: int,
    tab: TabView,
)
    requires
        is_listing(list, table),
        !table.contains_key(tab.id),
        0 <= place <= list.len(),
        in_order(list.insert(place, tab)),
    ensures
        is_listing(list.insert(place, tab), table.insert(tab.id, tab)),
{
    let longer = list.insert(place, tab);
    let larger = table.insert(tab.id, tab);
    assert forall|i: int| 0 <= i < longer.len() implies larger.contains_key(
        (#[trigger] longer[i]).id,
    ) && larger[longer[i].id] == longer[i] by {
        if i < place {
            assert(longer[i] == list[i]);
        } else if i > place {
            assert(longer[i] == list[i - 1]);
        }
    }
    assert forall|id: i64| larger.contains_key(id) implies longer.contains(
        #[trigger] larger[id],
    ) by {
        if id == tab.id {
            assert(longer[place] == tab);
        } else {
            assert(list.contains(table[id]));
            let k = choose|k: int| 0 <= k < list.len() && list[k] == table[id];
            if k < place {
                assert(longer[k] == table[id]);
            } else {
                assert(longer[k + 1] == table[id]);
            }
        }
    }
}

/// Whether one tab is listed before another.
fn is_listed_before(a: &BrowserTab, b: &BrowserTab) -> (result: bool)
    ensures
        result == listed_before(a@, b@),
{
    if a.active == b.active {
        a.id < b.id
    } else {
        a.active
    }
}

/// Puts a tab into its place in a row of others that is in order, and tells the place.
fn insert_in_order(list: &mut Vec<BrowserTab>, tab: BrowserTab) -> (place: usize)
    requires
        in_order(tabs_view(old(list)@)),
        forall|i: int| 0 <= i < old(list)@.len() ==> (#[trigger] old(list)@[i]).id != tab.id,
    ensures
        place <= old(list)@.len(),
        tabs_view(final(list)@) == tabs_view(old(list)@).insert(place as int, tab@),
        in_order(tabs_view(final(list)@)),
{
    let ghost before = tabs_view(list@);
    let mut place: usize = 0;
    while place < list.len() && is_listed_before(&list[place], &tab)
        invariant
            place <= list@.len(),
            list@ == old(list)@,
            forall|i: int| 0 <= i < place ==> listed_before(#[trigger] list@[i]@, tab@),
        decreases list@.len() - place,
    {
        place = place + 1;
    }
    let ghost put = tab@;
    proof {
        assert forall|i: int| 0 <= i < before.len() implies (if i < place {
            listed_before(#[trigger] before[i], put)
        } else {
            listed_before(put, before[i])
        }) by {
            assert(before[i] == list@[i]@);
            if i >= place {
                assert(listed_before(put, before[place as int]));
            }
        }
    }
    list.insert(place, tab);
    assert(tabs_view(list@) =~= before.insert(place as int, put));
    place
}

/// One more of a row of distinct keys adds that key.
proof fn lemma_take_one_more(keys: Seq<i64>, at: int)
    requires
        0 <= at < keys.len(),
        keys.no_duplicates(),
    ensures
        !keys.take(at).contains(keys[at]),
        forall|key: i64| #[trigger]
            keys.take(at + 1).contains(key) <==> keys.take(at).contains(key) || key == keys[at],
{
    let some = keys.take(at);
    let more = keys.take(at + 1);
    assert(more =~= some.push(keys[at]));
    assert forall|key: i64| #[trigger] more.contains(key) <==> some.contains(key) || key
        == keys[at] by {
        if some.contains(key) {
            let k = choose|k: int| 0 <= k < some.len() && some[k] == key;
            assert(more[k] == key);
        }
        assert(more[at] == keys[at]);
        if more.contains(key) && key != keys[at] {
            let k = choose|k: int| 0 <= k < more.len() && more[k] == key;
            assert(some[k] == key);
        }
    }
}

/// The tabs that were told of.
pub struct TabTable {
    tabs: HashMap<i64, BrowserTab>,
}

impl View for TabTable {
    type V = Map<i64, TabView>;

    closed spec fn view(&self) -> Map<i64, TabView> {
        Map::new(|id: i64| self.tabs@.contains_key(id), |id: i64| self.tabs@[id]@)
    }
}

impl TabTable {
    /// No tab was told of.
    pub fn new() -> (result: TabTable)
        ensures
            result@ == Map::<i64, TabView>::empty(),
            is_table(result@),
    {
        let result = TabTable { tabs: HashMap::new() };
        assert(result@ =~= Map::<i64, TabView>::empty());
        result
    }

    /// Puts a tab into the table, in place of the one with its number.
    pub fn insert(&mut self, tab: BrowserTab)
        requires
            is_table(old(self)@),
        ensures
            final(self)@ == old(self)@.insert(tab.id, tab@),
            is_table(final(self)@),
    {
        let ghost before = self@;
        let ghost put = tab@;
        self.tabs.insert(tab.id, tab);
        assert(self@ =~= before.insert(put.id, put));
    }

    /// How many tabs there are.
    pub fn len(&self) -> (result: usize)
        requires
            is_table(self@),
        ensures
            result == self@.dom().len(),
    {
        assert(self.tabs@.dom() =~= self@.dom());
        self.tabs.len()
    }

    /// The tabs in order.
    pub fn list(&self) -> (result: Vec<BrowserTab>)
        requires
            is_table(self@),
        ensures
            is_listing(tabs_view(result@), self@),
    {
        let mut list: Vec<BrowserTab> = Vec::new();
        let ghost mut part: Map<i64, TabView> = Map::empty();
        assert(is_listing(tabs_view(list@), part));
        for id in it: self.tabs.keys()
            invariant
                it.seq().unref().to_set() == self.tabs@.dom(),
                it.seq().no_duplicates(),
                is_table(self@),
                is_listing(tabs_view(list@), part),
                forall|key: i64| #[trigger]
                    part.contains_key(key) ==> self@.contains_key(key) && part[key] == self@[key],
                forall|key: i64| #[trigger]
                    part.contains_key(key) <==> it.seq().unref().take(it.index() as int).contains(
                        key,
                    ),
                it.index() == it.seq().len() ==> forall|key: i64| #[trigger]
                    self@.contains_key(key) ==> part.contains_key(key),
        {
            let ghost keys = it.seq().unref();
            let ghost at = it.index() as int;
            proof {
                assert(keys[at] == *id);
                assert(keys.to_set().contains(*id));
                lemma_take_one_more(keys, at);
            }
            if let Some(tab) = self.tabs.get(id) {
                let ghost before = tabs_view(list@);
                let copy = tab.copy();
                let ghost put = copy@;
                proof {
                    assert(self@.contains_key(*id) && self@[*id] == put);
                    assert(!part.contains_key(put.id));
                    assert forall|i: int| 0 <= i < list@.len() implies (#[trigger] list@[i]).id
                        != put.id by {
                        assert(part.contains_key(before[i].id));
                    }
                }
                let place = insert_in_order(&mut list, copy);
                proof {
                    lemma_listing_insert(before, part, place as int, put);
                    part = part.insert(put.id, put);
                }
            }
            proof {
                assert forall|key: i64| at + 1 == keys.len() && #[trigger] self@.contains_key(
                    key,
                ) implies part.contains_key(key) by {
                    assert(keys.take(at + 1) =~= keys);
                    assert(keys.to_set().contains(key));
                    assert(keys.take(at + 1).contains(key));
                }
            }
        }
        assert(part =~= self@);
        list
    }
}

// ===== What holds of tables and listings =====

/// A table has one listing.
pub proof fn law_listing_is_unique(a: Seq<TabView>, b: Seq<TabView>, table: Map<i64, TabView>)
    requires
        is_table(table),
        is_listing(a, table),
        is_listing(b, table),
    ensures
        a == b,
    decreases a.len(),
{
    if a.len() == 0 {
        if b.len() > 0 {
            assert(a.contains(table[b[0].id]));
        }
        assert(a =~= b);
    } else {
        assert(b.contains(table[a[0].id]));
        let j = choose|j: int| 0 <= j < b.len() && b[j] == a[0];
        assert(a.contains(table[b[0].id]));
        let i = choose|i: int| 0 <= i < a.len() && a[i] == b[0];
        assert(i == 0 || listed_before(a[0], a[i]));
        assert(j == 0 || listed_before(b[0], b[j]));
        assert(a[0] == b[0]);
        let first = a[0];
        let smaller = table.remove(first.id);
        lemma_listing_rest(a, table);
        lemma_listing_rest(b, table);
        law_listing_is_unique(a.drop_first(), b.drop_first(), smaller);
        assert(a =~= seq![first] + a.drop_first());
        assert(b =~= seq![first] + b.drop_first());
    }
}

/// A listing without its first tab lists the table without that tab.
proof fn lemma_listing_rest(list: Seq<TabView>, table: Map<i64, TabView>)
    requires
        is_table(table),
        is_listing(list, table),
        list.len() > 0,
    ensures
        is_listing(list.drop_first(), table.remove(list[0].id)),
{
    let rest = list.drop_first();
    let smaller = table.remove(list[0].id);
    assert forall|i: int, j: int| 0 <= i < j < rest.len() implies listed_before(
        #[trigger] rest[i],
        #[trigger] rest[j],
    ) by {
        assert(rest[i] == list[i + 1] && rest[j] == list[j + 1]);
    }
    assert forall|i: int| 0 <= i < rest.len() implies smaller.contains_key((#[trigger] rest[i]).id)
        && smaller[rest[i].id] == rest[i] by {
        assert(rest[i] == list[i + 1]);
        assert(listed_before(list[0], list[i + 1]));
        assert(table[list[0].id] == list[0]);
    }
    assert forall|id: i64| smaller.contains_key(id) implies rest.contains(#[trigger] smaller[id]) by {
        assert(list.contains(table[id]));
        let k = choose|k: int| 0 <= k < list.len() && list[k] == table[id];
        assert(table[list[k].id] == list[k]);
        assert(rest[k - 1] == table[id]);
    }
}

/// Of the tabs with one number the one told of last stands in the table, and the others leave no
/// trace. Tabs with other numbers stay as they are.
pub proof fn law_last_word_counts(table: Map<i64, TabView>, tabs: Seq<TabView>, id: i64)
    ensures
        ({
            let after = with_tabs(table, tabs);
            if exists|i: int| 0 <= i < tabs.len() && (#[trigger] tabs[i]).id == id {
                exists|i: int|
                    0 <= i < tabs.len() && (#[trigger] tabs[i]).id == id && (forall|j: int|
                        i < j < tabs.len() ==> (#[trigger] tabs[j]).id != id)
                        && after.contains_key(id) && after[id] == tabs[i]
            } else {
                &&& after.contains_key(id) == table.contains_key(id)
                &&& after[id] == table[id]
            }
        }),
    decreases tabs.len(),
{
    if tabs.len() > 0 {
        let shorter = tabs.drop_last();
        let last = tabs.len() - 1;
        law_last_word_counts(table, shorter, id);
        if tabs[last].id != id {
            if exists|i: int| 0 <= i < tabs.len() && (#[trigger] tabs[i]).id == id {
                let i = choose|i: int| 0 <= i < tabs.len() && (#[trigger] tabs[i]).id == id;
                assert(shorter[i].id == id);
                let k = choose|k: int|
                    0 <= k < shorter.len() && (#[trigger] shorter[k]).id == id && (forall|j: int|
                        k < j < shorter.len() ==> (#[trigger] shorter[j]).id != id)
                        && with_tabs(table, shorter)[id] == shorter[k];
                assert(tabs[k].id == id);
                assert forall|j: int| k < j < tabs.len() implies (#[trigger] tabs[j]).id != id by {
                    if j < last {
                        assert(shorter[j].id != id);
                    }
                }
            } else {
                assert forall|i: int| 0 <= i < shorter.len() implies (#[trigger] shorter[i]).id
                    != id by {
                    assert(tabs[i].id != id);
                }
            }
        }
    }
}

}
