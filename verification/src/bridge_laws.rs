//! What holds of the tabs, the commands and the results of the bridge, field by field.

use crate::bridge::{BridgeState, BrowserCommand, CommandResult, CommandView, ResultView};
use crate::json::JsonView;
use crate::tabs::{BrowserTab, TabView};
use crate::{bridge, json_text, tabs};
use vstd::prelude::*;
use vstd::string::*;

verus! {

// ===== Values =====

/// What tabs, commands and results are is what their fields hold.
pub proof fn law_values_are_their_fields(
    tab: BrowserTab,
    result: CommandResult,
    id: String,
    tab_id: Option<i64>,
    code: String,
    i: int,
)
    ensures
        tab@ == (TabView {
            id: tab.id,
            url: tab.url@,
            title: tab.title@,
            active: tab.active,
            window_id: tab.window_id,
        }),
        (BrowserCommand::ExecuteJs { id, tab_id, code })@ == (CommandView {
            id: id@,
            tab_id,
            code: code@,
        }),
        result@.ok == result.ok,
        result@.data == result.data@,
        result@.error == result.error@,
        result@.new_tabs.len() == result.new_tabs@.len(),
        0 <= i < result.new_tabs@.len() ==> result@.new_tabs[i] == result.new_tabs@[i]@,
{
}

/// A tab as it is told to others, with all its fields.
pub proof fn law_tab_is_told_so(tab: TabView)
    ensures
        ({
            let window = if tab.window_id is Some {
                JsonView::Number(json_text::integer_number(tab.window_id->0))
            } else {
                JsonView::Null
            };
            tabs::tab_json(tab) == JsonView::Object(
                map![
                    "id"@ => JsonView::Number(json_text::integer_number(tab.id)),
                    "url"@ => JsonView::Str(tab.url),
                    "title"@ => JsonView::Str(tab.title),
                    "active"@ => JsonView::Bool(tab.active),
                    "windowId"@ => window,
                ],
            )
        }),
{
}

/// Tabs are told one by one, each of them in its place.
pub proof fn law_every_tab_is_told(row: Seq<TabView>)
    ensures
        tabs::tabs_json(row) matches JsonView::Array(told) && told.len() == row.len() && forall|
            i: int,
        |
            0 <= i < row.len() ==> told[i] == tabs::tab_json(#[trigger] row[i]),
{
}

/// A command as the browser is told of it, with all its fields.
pub proof fn law_command_is_told_so(id: Seq<char>, code: Seq<char>, tab: i64)
    ensures
        bridge::command_json(CommandView { id, tab_id: None, code }) == JsonView::Object(
            map![
                "type"@ => JsonView::Str("execute_js"@),
                "id"@ => JsonView::Str(id),
                "code"@ => JsonView::Str(code),
            ],
        ),
        bridge::command_json(CommandView { id, tab_id: Some(tab), code }) == JsonView::Object(
            map![
                "type"@ => JsonView::Str("execute_js"@),
                "id"@ => JsonView::Str(id),
                "tabId"@ => JsonView::Number(json_text::integer_number(tab)),
                "code"@ => JsonView::Str(code),
            ],
        ),
        bridge::noop_json() == JsonView::Object(map!["type"@ => JsonView::Str("noop"@)]),
{
}

/// The one who gave a command gets what the script returned and the tabs that it opened, or the
/// text of the error.
pub proof fn law_outcome_is_what_was_told(result: ResultView)
    ensures
        result.ok ==> bridge::outcome(result) == Ok::<JsonView, Seq<char>>(
            JsonView::Object(
                map!["data"@ => result.data, "newTabs"@ => tabs::tabs_json(result.new_tabs)],
            ),
        ),
        !result.ok ==> bridge::outcome(result) == Err::<JsonView, Seq<char>>(
            json_text::printed_json(result.error),
        ),
{
}

// ===== Tabs =====

/// In a listing the active tabs come before the others, and of two that are both active, or both
/// not, the one with the smaller number comes first.
pub proof fn law_listing_is_in_order(
    list: Seq<TabView>,
    table: Map<i64, TabView>,
    i: int,
    j: int,
)
    requires
        tabs::is_listing(list, table),
        0 <= i < j < list.len(),
    ensures
        list[j].active ==> list[i].active,
        list[i].active == list[j].active ==> list[i].id < list[j].id,
        list[i].id != list[j].id,
{
    assert(tabs::listed_before(list[i], list[j]));
    assert(table[list[i].id] == list[i] && table[list[j].id] == list[j]);
}

/// A listing holds every tab of the table, as it is, and nothing else.
pub proof fn law_listing_is_the_table(
    list: Seq<TabView>,
    table: Map<i64, TabView>,
    tab: TabView,
)
    requires
        tabs::is_table(table),
        tabs::is_listing(list, table),
    ensures
        list.contains(tab) <==> table.contains_key(tab.id) && table[tab.id] == tab,
{
    if list.contains(tab) {
        let i = choose|i: int| 0 <= i < list.len() && list[i] == tab;
        assert(table.contains_key(list[i].id));
    }
    if table.contains_key(tab.id) && table[tab.id] == tab {
        assert(list.contains(table[tab.id]));
    }
}

/// A tab that is told of stands in the table as it was told of; every other one stays as it was.
pub proof fn law_told_tab_stands_in_the_table(
    table: Map<i64, TabView>,
    before: Seq<TabView>,
    tab: TabView,
    other: i64,
)
    requires
        other != tab.id,
    ensures
        ({
            let earlier = tabs::with_tabs(table, before);
            let later = tabs::with_tabs(table, before.push(tab));
            &&& later.contains_key(tab.id) && later[tab.id] == tab
            &&& later.contains_key(other) <==> earlier.contains_key(other)
            &&& earlier.contains_key(other) ==> later[other] == earlier[other]
            &&& tabs::with_tabs(table, Seq::empty()) == table
        }),
{
    assert(before.push(tab).drop_last() =~= before);
    assert(before.push(tab).last() == tab);
}

// ===== The state of the bridge =====

/// A command joins the end of the queue, and a poll takes the one at its front. Nothing else
/// changes.
pub proof fn law_queue_is_first_in_first_out(state: BridgeState, command: CommandView, i: int)
    ensures
        ({
            let more = state.with_command(command);
            &&& more.queue.len() == state.queue.len() + 1
            &&& more.queue[state.queue.len() as int] == command
            &&& 0 <= i < state.queue.len() ==> more.queue[i] == state.queue[i]
            &&& more.tabs == state.tabs
            &&& more.results == state.results
        }),
        state.queue.len() > 0 ==> {
            let less = state.without_command();
            &&& less.queue.len() == state.queue.len() - 1
            &&& 0 <= i < less.queue.len() ==> less.queue[i] == state.queue[i + 1]
            &&& less.tabs == state.tabs
            &&& less.results == state.results
        },
{
}

/// Tabs that are told of go into the table, alone or with a result; a result goes under its
/// identifier, and is gone when it is taken. Nothing else changes.
pub proof fn law_bridge_keeps_the_rest(
    state: BridgeState,
    told: Seq<TabView>,
    id: Seq<char>,
    result: ResultView,
)
    ensures
        state.with_tabs(told).tabs == tabs::with_tabs(state.tabs, told),
        state.with_tabs(told).queue == state.queue,
        state.with_tabs(told).results == state.results,
        state.with_result(id, result).tabs == tabs::with_tabs(state.tabs, result.new_tabs),
        state.with_result(id, result).queue == state.queue,
        state.with_result(id, result).results == state.results.insert(id, result),
        state.without_result(id).tabs == state.tabs,
        state.without_result(id).queue == state.queue,
        state.without_result(id).results == state.results.remove(id),
{
}

// ===== Waiting =====

/// A wait for news lasts a quarter of a second, or what is left of the time where that is less.
pub proof fn law_waits_are_short(limit: u128, waited: u128)
    requires
        waited < limit,
    ensures
        limit - waited >= 250_000_000 ==> bridge::wait_left(limit, waited) == 250_000_000,
        limit - waited < 250_000_000 ==> bridge::wait_left(limit, waited) == limit - waited,
{
}

/// A result is waited for as long as is asked, but from one second to two minutes, and fifteen
/// seconds where nothing is asked.
pub proof fn law_time_is_held_within_bounds(ms: u64)
    ensures
        bridge::timeout_ms(None) == 15_000,
        1_000 <= ms && ms <= 120_000 ==> bridge::timeout_ms(Some(ms)) == ms,
        ms < 1_000 ==> bridge::timeout_ms(Some(ms)) == 1_000,
        ms > 120_000 ==> bridge::timeout_ms(Some(ms)) == 120_000,
{
}

}
