//! What the stats window shows: a heading, then the sections that its
//! configuration lists, in the order listed.
use vstd::prelude::*;
use vstd::string::StringExecFns;
use crate::stats::CachedStats;
use crate::stats::total_agents;
use crate::stats::total_count;
use crate::text::decimal_digits;
use crate::text::push_decimal;
use crate::text::str_eq;

verus! {

/// One item of the stats window, top to bottom.
#[derive(Debug, PartialEq, Eq)]
pub enum StatsItem {
    /// A line of text in the given colour.
    Row { text: String, color: (u8, u8, u8) },
    /// The graph of recent active interactions.
    InteractionGraph,
}

/// A stats window item with its text as characters.
pub enum StatsItemView {
    Row(Seq<char>, (u8, u8, u8)),
    InteractionGraph,
}

impl View for StatsItem {
    type V = StatsItemView;

    open spec fn view(&self) -> StatsItemView {
        match self {
            StatsItem::Row { text, color } => StatsItemView::Row(text@, *color),
            StatsItem::InteractionGraph => StatsItemView::InteractionGraph,
        }
    }
}

pub open spec fn heading_color() -> (u8, u8, u8) {
    (220, 220, 220)
}

pub open spec fn agent_color() -> (u8, u8, u8) {
    (180, 255, 180)
}

/// A label followed by a number, as `format!("{label}{n}")` writes it.
pub open spec fn labelled(label: Seq<char>, n: nat) -> Seq<char> {
    label + decimal_digits(n)
}

/// One line per agent type, `type: count`, then the total.
pub open spec fn agent_count_rows(counts: Seq<(String, usize)>) -> Seq<StatsItemView> {
    counts.map_values(
        |e: (String, usize)| StatsItemView::Row(labelled(e.0@ + ": "@, e.1 as nat), agent_color()),
    ).push(StatsItemView::Row(labelled("Total agents: "@, total_count(counts)), agent_color()))
}

/// The items of one configured section; a name that is no section shows nothing.
pub open spec fn section_items(
    name: Seq<char>,
    stats: CachedStats,
    selected: Option<SelectedAgentInfo>,
) -> Seq<StatsItemView> {
    if name == "agent_counts"@ {
        agent_count_rows(stats.agent_counts@)
    } else if name == "food_counts"@ {
        seq![
            StatsItemView::Row(labelled("Food: "@, stats.food_count as nat), (255, 220, 180)),
            StatsItemView::Row(
                labelled("Food spawned/tick: "@, stats.food_spawned_per_tick as nat),
                (255, 220, 100),
            ),
            StatsItemView::Row(
                labelled("Food collected/tick: "@, stats.food_collected_per_tick as nat),
                (255, 180, 100),
            ),
        ]
    } else if name == "interaction_stats"@ {
        seq![
            StatsItemView::Row(
                labelled("Agent interactions: "@, stats.agent_interactions as nat),
                (180, 200, 255),
            ),
            StatsItemView::Row(
                labelled("Active interactions: "@, stats.active_interactions as nat),
                (120, 180, 255),
            ),
            StatsItemView::InteractionGraph,
        ]
    } else if name == "selected_agent"@ {
        match selected {
            Some(info) => selected_agent_items(info),
            None => Seq::empty(),
        }
    } else {
        Seq::empty()
    }
}

/// The items of the listed sections, in the order listed.
pub open spec fn sections_items(
    names: Seq<String>,
    stats: CachedStats,
    selected: Option<SelectedAgentInfo>,
) -> Seq<StatsItemView>
    decreases names.len(),
{
    if names.len() == 0 {
        Seq::empty()
    } else {
        sections_items(names.drop_last(), stats, selected) + section_items(
            names.last()@,
            stats,
            selected,
        )
    }
}

/// The selected agent's details, if an agent is selected.
pub open spec fn selected_view(selected: Option<&SelectedAgentInfo>) -> Option<SelectedAgentInfo> {
    match selected {
        Some(info) => Some(*info),
        None => None,
    }
}

/// The whole window: the heading, then the configured sections, if any.
pub open spec fn window_items(
    components: Option<Seq<String>>,
    stats: CachedStats,
    selected: Option<SelectedAgentInfo>,
) -> Seq<StatsItemView> {
    seq![StatsItemView::Row("Simulation Stats"@, heading_color())] + match components {
        Some(names) => sections_items(names, stats, selected),
        None => Seq::empty(),
    }
}

pub open spec fn items_view(items: Seq<StatsItem>) -> Seq<StatsItemView> {
    items.map_values(|item: StatsItem| item@)
}

fn push_item(items: &mut Vec<StatsItem>, item: StatsItem)
    ensures
        items_view(final(items)@) == items_view(old(items)@).push(item@),
{
    items.push(item);
    assert(items_view(items@) =~= items_view(old(items)@).push(item@));
}

fn labelled_row(label: &str, n: usize, color: (u8, u8, u8)) -> (item: StatsItem)
    ensures
        item@ == StatsItemView::Row(labelled(label@, n as nat), color),
{
    let mut text = String::new();
    text.append(label);
    push_decimal(&mut text, n);
    StatsItem::Row { text, color }
}

fn push_agent_count_rows(items: &mut Vec<StatsItem>, counts: &Vec<(String, usize)>)
    requires
        total_count(counts@) <= usize::MAX,
    ensures
        items_view(final(items)@) == items_view(old(items)@) + agent_count_rows(counts@),
{
    let ghost start = items_view(items@);
    let ghost rows = counts@.map_values(
        |e: (String, usize)| StatsItemView::Row(labelled(e.0@ + ": "@, e.1 as nat), agent_color()),
    );
    let mut i: usize = 0;
    while i < counts.len()
        invariant
            i <= counts.len(),
            rows == counts@.map_values(
                |e: (String, usize)|
                    StatsItemView::Row(labelled(e.0@ + ": "@, e.1 as nat), agent_color()),
            ),
            items_view(items@) == start + rows.take(i as int),
        decreases counts.len() - i,
    {
        let mut text = counts[i].0.clone();
        text.append(": ");
        push_decimal(&mut text, counts[i].1);
        let item = StatsItem::Row { text, color: (180, 255, 180) };
        assert(item@ == rows[i as int]);
        push_item(items, item);
        assert(rows.take(i + 1) =~= rows.take(i as int).push(rows[i as int]));
        i = i + 1;
    }
    assert(rows.take(counts.len() as int) =~= rows);
    let total = total_agents(counts);
    push_item(items, labelled_row("Total agents: ", total, (180, 255, 180)));
    assert(start + rows + seq![
        StatsItemView::Row(labelled("Total agents: "@, total_count(counts@)), agent_color()),
    ] =~= start + agent_count_rows(counts@));
}

fn push_section_items(
    items: &mut Vec<StatsItem>,
    name: &String,
    stats: &CachedStats,
    selected: Option<&SelectedAgentInfo>,
)
    requires
        total_count(stats.agent_counts@) <= usize::MAX,
    ensures
        items_view(final(items)@) == items_view(old(items)@) + section_items(
            name@,
            *stats,
            selected_view(selected),
        ),
{
    let ghost start = items_view(items@);
    if str_eq(name.as_str(), "agent_counts") {
        push_agent_count_rows(items, &stats.agent_counts);
    } else if str_eq(name.as_str(), "food_counts") {
        push_item(items, labelled_row("Food: ", stats.food_count, (255, 220, 180)));
        push_item(
            items,
            labelled_row("Food spawned/tick: ", stats.food_spawned_per_tick, (255, 220, 100)),
        );
        push_item(
            items,
            labelled_row("Food collected/tick: ", stats.food_collected_per_tick, (255, 180, 100)),
        );
        assert(items_view(items@) =~= start + section_items(name@, *stats, selected_view(selected)));
    } else if str_eq(name.as_str(), "interaction_stats") {
        push_item(
            items,
            labelled_row("Agent interactions: ", stats.agent_interactions, (180, 200, 255)),
        );
        push_item(
            items,
            labelled_row("Active interactions: ", stats.active_interactions, (120, 180, 255)),
        );
        push_item(items, StatsItem::InteractionGraph);
        assert(items_view(items@) =~= start + section_items(name@, *stats, selected_view(selected)));
    } else if str_eq(name.as_str(), "selected_agent") {
        match selected {
            Some(info) => {
                let mut rows = selected_agent_rows(info);
                let ghost before = items_view(items@);
                items.append(&mut rows);
                assert(items_view(items@) =~= before + selected_agent_items(*info));
            },
            None => {},
        }
        assert(items_view(items@) =~= start + section_items(name@, *stats, selected_view(selected)));
    } else {
        assert(items_view(items@) =~= start + section_items(name@, *stats, selected_view(selected)));
    }
}

/// The items of the stats window, top to bottom: the heading, then for each
/// section that the configuration lists, in its order, the section's lines:
/// the agent counts per type and their total, the food counts, the
/// interaction counts and their graph, or the selected agent's details.
/// Names that are no section show nothing; without a list only the heading
/// shows. The selected agent's section shows only while an agent is
/// selected.
pub fn stats_window_items(
    components: &Option<Vec<String>>,
    stats: &CachedStats,
    selected: Option<&SelectedAgentInfo>,
) -> (items: Vec<StatsItem>)
    requires
        total_count(stats.agent_counts@) <= usize::MAX,
    ensures
        items_view(items@) == window_items(
            match components {
                Some(names) => Some(names@),
                None => None,
            },
            *stats,
            selected_view(selected),
        ),
{
    let mut items: Vec<StatsItem> = Vec::new();
    let heading = String::from_str("Simulation Stats");
    push_item(&mut items, StatsItem::Row { text: heading, color: (220, 220, 220) });
    assert(items_view(items@) =~= seq![StatsItemView::Row("Simulation Stats"@, heading_color())]);
    match components {
        Some(names) => {
            let ghost start = items_view(items@);
            let mut i: usize = 0;
            while i < names.len()
                invariant
                    i <= names.len(),
                    total_count(stats.agent_counts@) <= usize::MAX,
                    items_view(items@) == start + sections_items(names@.take(i as int), *stats, selected_view(selected)),
                decreases names.len() - i,
            {
                assert(names@.take(i + 1).drop_last() =~= names@.take(i as int));
                push_section_items(&mut items, &names[i], stats, selected);
                assert(start + sections_items(names@.take(i + 1), *stats, selected_view(selected)) =~= start
                    + sections_items(names@.take(i as int), *stats, selected_view(selected)) + section_items(
                    names@[i as int]@,
                    *stats,
                    selected_view(selected),
                ));
                i = i + 1;
            }
            assert(names@.take(names.len() as int) =~= names@);
        },
        None => {
            assert(items_view(items@) =~= window_items(None, *stats, selected_view(selected)));
        },
    }
    items
}

/// A line of the compact stats overlay: its text, colour and top edge.
pub open spec fn overlay_row(text: Seq<char>, color: (u8, u8, u8), y: i32) -> (
    Seq<char>,
    (u8, u8, u8),
    i32,
) {
    (text, color, y)
}

/// The lines of the compact stats overlay: the agent and food counts one
/// below the other, then, when food statistics are kept, the food spawned and
/// the food collected in the last tick, both on the third line.
pub open spec fn overlay_rows(
    agent_count: nat,
    food_count: nat,
    food_stats: Option<(usize, usize)>,
) -> Seq<(Seq<char>, (u8, u8, u8), i32)> {
    seq![
        overlay_row(labelled("Agents: "@, agent_count), (200, 200, 255), 10),
        overlay_row(labelled("Food: "@, food_count), (180, 255, 180), 32),
    ] + match food_stats {
        Some((spawned, collected)) => seq![
            overlay_row(labelled("Food spawned/tick: "@, spawned as nat), (255, 220, 100), 54),
            overlay_row(labelled("Food collected/tick: "@, collected as nat), (255, 180, 100), 54),
        ],
        None => Seq::empty(),
    }
}

pub open spec fn rows_view(rows: Seq<(String, (u8, u8, u8), i32)>) -> Seq<
    (Seq<char>, (u8, u8, u8), i32),
> {
    rows.map_values(|r: (String, (u8, u8, u8), i32)| (r.0@, r.1, r.2))
}

fn push_overlay_row(
    rows: &mut Vec<(String, (u8, u8, u8), i32)>,
    label: &str,
    n: usize,
    color: (u8, u8, u8),
    y: i32,
)
    ensures
        rows_view(final(rows)@) == rows_view(old(rows)@).push(
            overlay_row(labelled(label@, n as nat), color, y),
        ),
{
    let mut text = String::new();
    text.append(label);
    push_decimal(&mut text, n);
    rows.push((text, color, y));
    assert(rows_view(rows@) =~= rows_view(old(rows)@).push(
        overlay_row(labelled(label@, n as nat), color, y),
    ));
}

/// The lines of the compact stats overlay, given the number of agents, the
/// number of food items and the food statistics of the last tick. Showing
/// the food statistics resets them to zero, so that each tick's values show.
pub fn stats_overlay_rows(
    agent_count: usize,
    food_count: usize,
    food_stats: &mut Option<(usize, usize)>,
) -> (rows: Vec<(String, (u8, u8, u8), i32)>)
    ensures
        rows_view(rows@) == overlay_rows(agent_count as nat, food_count as nat, *old(food_stats)),
        *final(food_stats) == match *old(food_stats) {
            Some(_) => Some((0usize, 0usize)),
            None => None,
        },
{
    let mut rows: Vec<(String, (u8, u8, u8), i32)> = Vec::new();
    push_overlay_row(&mut rows, "Agents: ", agent_count, (200, 200, 255), 10);
    push_overlay_row(&mut rows, "Food: ", food_count, (180, 255, 180), 32);
    match *food_stats {
        Some((spawned, collected)) => {
            push_overlay_row(&mut rows, "Food spawned/tick: ", spawned, (255, 220, 100), 54);
            push_overlay_row(&mut rows, "Food collected/tick: ", collected, (255, 180, 100), 54);
            *food_stats = Some((0, 0));
        },
        None => {},
    }
    assert(rows_view(rows@) =~= overlay_rows(agent_count as nat, food_count as nat, *old(food_stats)));
    rows
}

/// What the stats window shows of an interaction of the selected agent.
/// Entities arrive as their debug text.
#[derive(Debug, Clone)]
pub struct InteractionInfo {
    pub target: Option<String>,
    pub cooldown: usize,
    pub last_partner: Option<String>,
    pub recent_partners: usize,
}

/// What the stats window shows of the selected agent. Entities, states and
/// floating-point values arrive as text: the entity and state as their debug
/// text, the position with one decimal per coordinate as `(x, y)`, the move
/// speed with two decimals, hunger and energy with one.
#[derive(Debug, Clone)]
pub struct SelectedAgentInfo {
    pub entity: String,
    pub position: Option<String>,
    /// The agent type's name and move speed.
    pub agent_type: Option<(String, String)>,
    pub hunger: Option<String>,
    pub energy: Option<String>,
    pub state: Option<String>,
    pub interaction: Option<InteractionInfo>,
}

pub open spec fn text_row(label: Seq<char>, value: Seq<char>, color: (u8, u8, u8)) -> StatsItemView {
    StatsItemView::Row(label + value, color)
}

pub open spec fn optional_row(
    label: Seq<char>,
    value: Option<String>,
    color: (u8, u8, u8),
) -> Seq<StatsItemView> {
    match value {
        Some(v) => seq![text_row(label, v@, color)],
        None => Seq::empty(),
    }
}

/// The interaction status: interacting while there is a target, else
/// cooling down while the cooldown runs, else idle.
pub open spec fn interaction_status(i: InteractionInfo) -> Seq<char> {
    if i.target is Some {
        "Interacting"@
    } else if i.cooldown > 0 {
        "Cooldown"@
    } else {
        "Idle"@
    }
}

pub open spec fn interaction_color() -> (u8, u8, u8) {
    (255, 180, 255)
}

pub open spec fn stat_color() -> (u8, u8, u8) {
    (180, 220, 255)
}

/// The lines about the agent type: its name, its move speed, and the
/// attributes that are not tracked yet.
pub open spec fn agent_type_items(agent_type: Option<(String, String)>) -> Seq<StatsItemView> {
    match agent_type {
        Some((name, speed)) => seq![
            text_row("Type: "@, name@, (200, 200, 255)),
            text_row("Move Speed: "@, speed@, stat_color()),
            StatsItemView::Row("Strength: N/A"@, stat_color()),
            StatsItemView::Row("Stamina: N/A"@, stat_color()),
            StatsItemView::Row("Vision: N/A"@, stat_color()),
            StatsItemView::Row("Work Rate: N/A"@, stat_color()),
        ],
        None => Seq::empty(),
    }
}

/// The lines about the interaction: its status, the target and the last
/// partner when there are any, and the number of recent partners.
pub open spec fn interaction_items(interaction: Option<InteractionInfo>) -> Seq<StatsItemView> {
    match interaction {
        Some(i) => seq![text_row("Interaction: "@, interaction_status(i), interaction_color())]
            + optional_row("Target: "@, i.target, interaction_color()) + optional_row(
            "Last Partner: "@,
            i.last_partner,
            interaction_color(),
        ) + seq![
            StatsItemView::Row(
                labelled("Recent Partners: "@, i.recent_partners as nat),
                interaction_color(),
            ),
        ],
        None => Seq::empty(),
    }
}

/// The lines about the selected agent, top to bottom: the entity, then each
/// detail that is known, in a fixed order.
pub open spec fn selected_agent_items(info: SelectedAgentInfo) -> Seq<StatsItemView> {
    seq![text_row("Selected Agent: "@, info.entity@, (255, 255, 180))] + optional_row(
        "Position: "@,
        info.position,
        (200, 255, 200),
    ) + agent_type_items(info.agent_type) + optional_row("Hunger: "@, info.hunger, (255, 200, 180))
        + optional_row("Energy: "@, info.energy, (255, 255, 200)) + optional_row(
        "State: "@,
        info.state,
        (255, 220, 180),
    ) + interaction_items(info.interaction)
}

fn push_text_row(items: &mut Vec<StatsItem>, label: &str, value: &str, color: (u8, u8, u8))
    ensures
        items_view(final(items)@) == items_view(old(items)@).push(text_row(label@, value@, color)),
{
    let mut text = String::new();
    text.append(label);
    text.append(value);
    push_item(items, StatsItem::Row { text, color });
}

fn push_optional_row(
    items: &mut Vec<StatsItem>,
    label: &str,
    value: &Option<String>,
    color: (u8, u8, u8),
)
    ensures
        items_view(final(items)@) == items_view(old(items)@) + optional_row(label@, *value, color),
{
    match value {
        Some(v) => {
            push_text_row(items, label, v.as_str(), color);
        },
        None => {},
    }
    assert(items_view(items@) =~= items_view(old(items)@) + optional_row(label@, *value, color));
}

fn push_agent_type_rows(items: &mut Vec<StatsItem>, agent_type: &Option<(String, String)>)
    ensures
        items_view(final(items)@) == items_view(old(items)@) + agent_type_items(*agent_type),
{
    match agent_type {
        Some((name, speed)) => {
            push_text_row(items, "Type: ", name.as_str(), (200, 200, 255));
            push_text_row(items, "Move Speed: ", speed.as_str(), (180, 220, 255));
            push_item(items, StatsItem::Row { text: String::from_str("Strength: N/A"), color: (180, 220, 255) });
            push_item(items, StatsItem::Row { text: String::from_str("Stamina: N/A"), color: (180, 220, 255) });
            push_item(items, StatsItem::Row { text: String::from_str("Vision: N/A"), color: (180, 220, 255) });
            push_item(items, StatsItem::Row { text: String::from_str("Work Rate: N/A"), color: (180, 220, 255) });
        },
        None => {},
    }
    assert(items_view(items@) =~= items_view(old(items)@) + agent_type_items(*agent_type));
}

fn push_interaction_rows(items: &mut Vec<StatsItem>, interaction: &Option<InteractionInfo>)
    ensures
        items_view(final(items)@) == items_view(old(items)@) + interaction_items(*interaction),
{
    match interaction {
        Some(i) => {
            let status = if i.target.is_some() {
                "Interacting"
            } else if i.cooldown > 0 {
                "Cooldown"
            } else {
                "Idle"
            };
            push_text_row(items, "Interaction: ", status, (255, 180, 255));
            push_optional_row(items, "Target: ", &i.target, (255, 180, 255));
            push_optional_row(items, "Last Partner: ", &i.last_partner, (255, 180, 255));
            push_item(items, labelled_row("Recent Partners: ", i.recent_partners, (255, 180, 255)));
        },
        None => {},
    }
    assert(items_view(items@) =~= items_view(old(items)@) + interaction_items(*interaction));
}

/// Some item of the list is the line `text` in `color`.
pub open spec fn shows_row(items: Seq<StatsItemView>, text: Seq<char>, color: (u8, u8, u8)) -> bool {
    exists|k: int| 0 <= k < items.len() && #[trigger] items[k] == StatsItemView::Row(text, color)
}

/// One when the detail is known, else none.
pub open spec fn known(detail: Option<String>) -> nat {
    if detail is Some {
        1
    } else {
        0
    }
}

/// A line shown in a part of a list is shown in the whole list.
proof fn lemma_shows_in_concat(
    a: Seq<StatsItemView>,
    b: Seq<StatsItemView>,
    text: Seq<char>,
    color: (u8, u8, u8),
)
    ensures
        shows_row(a, text, color) ==> shows_row(a + b, text, color),
        shows_row(b, text, color) ==> shows_row(a + b, text, color),
{
    if shows_row(a, text, color) {
        let k = choose|k: int| 0 <= k < a.len() && #[trigger] a[k] == StatsItemView::Row(text, color);
        assert((a + b)[k] == a[k]);
    }
    if shows_row(b, text, color) {
        let k = choose|k: int| 0 <= k < b.len() && #[trigger] b[k] == StatsItemView::Row(text, color);
        assert((a + b)[a.len() + k] == b[k]);
    }
}

proof fn lemma_optional_row_shows(label: Seq<char>, value: Option<String>, color: (u8, u8, u8))
    ensures
        optional_row(label, value, color).len() == known(value),
        value matches Some(v) ==> shows_row(optional_row(label, value, color), label + v@, color),
{
    if let Some(v) = value {
        assert(optional_row(label, value, color)[0] == text_row(label, v@, color));
    }
}

/// The lines about a selected agent show every known detail, each once, and
/// nothing else: the entity first, then position, type and move speed (with
/// the four untracked attributes), hunger, energy, state, and the
/// interaction's status, target, last partner and number of recent partners.
proof fn lemma_selected_agent_items_show(info: SelectedAgentInfo)
    ensures
        ({
            let items = selected_agent_items(info);
            &&& items.len() == 1 + known(info.position) + (if info.agent_type is Some {
                6nat
            } else {
                0nat
            }) + known(info.hunger) + known(info.energy) + known(info.state) + match info.interaction {
                Some(i) => 2 + known(i.target) + known(i.last_partner),
                None => 0,
            }
            &&& items[0] == StatsItemView::Row("Selected Agent: "@ + info.entity@, (255, 255, 180))
            &&& info.position matches Some(p) ==> shows_row(items, "Position: "@ + p@, (200, 255, 200))
            &&& info.agent_type matches Some((n, sp)) ==> shows_row(items, "Type: "@ + n@, (200, 200, 255))
                && shows_row(items, "Move Speed: "@ + sp@, (180, 220, 255))
            &&& info.hunger matches Some(h) ==> shows_row(items, "Hunger: "@ + h@, (255, 200, 180))
            &&& info.energy matches Some(e) ==> shows_row(items, "Energy: "@ + e@, (255, 255, 200))
            &&& info.state matches Some(st) ==> shows_row(items, "State: "@ + st@, (255, 220, 180))
            &&& info.interaction matches Some(i) ==> {
                &&& shows_row(
                    items,
                    "Interaction: "@ + if i.target is Some {
                        "Interacting"@
                    } else if i.cooldown > 0 {
                        "Cooldown"@
                    } else {
                        "Idle"@
                    },
                    (255, 180, 255),
                )
                &&& i.target matches Some(t) ==> shows_row(items, "Target: "@ + t@, (255, 180, 255))
                &&& i.last_partner matches Some(lp) ==> shows_row(
                    items,
                    "Last Partner: "@ + lp@,
                    (255, 180, 255),
                )
                &&& shows_row(
                    items,
                    "Recent Partners: "@ + decimal_digits(i.recent_partners as nat),
                    (255, 180, 255),
                )
            }
        }),
{
    let p0 = seq![text_row("Selected Agent: "@, info.entity@, (255, 255, 180))];
    let p1 = optional_row("Position: "@, info.position, (200, 255, 200));
    let p2 = agent_type_items(info.agent_type);
    let p3 = optional_row("Hunger: "@, info.hunger, (255, 200, 180));
    let p4 = optional_row("Energy: "@, info.energy, (255, 255, 200));
    let p5 = optional_row("State: "@, info.state, (255, 220, 180));
    let p6 = interaction_items(info.interaction);
    let q1 = p0 + p1;
    let q2 = q1 + p2;
    let q3 = q2 + p3;
    let q4 = q3 + p4;
    let q5 = q4 + p5;
    let items = q5 + p6;
    assert(items == selected_agent_items(info));
    lemma_optional_row_shows("Position: "@, info.position, (200, 255, 200));
    lemma_optional_row_shows("Hunger: "@, info.hunger, (255, 200, 180));
    lemma_optional_row_shows("Energy: "@, info.energy, (255, 255, 200));
    lemma_optional_row_shows("State: "@, info.state, (255, 220, 180));
    assert(items[0] == p0[0]);
    // Every line of a part is shown in the whole.
    assert forall|text: Seq<char>, color: (u8, u8, u8)|
        shows_row(p0, text, color) || shows_row(p1, text, color) || shows_row(p2, text, color)
            || shows_row(p3, text, color) || shows_row(p4, text, color) || shows_row(p5, text, color)
            || shows_row(p6, text, color) implies #[trigger] shows_row(items, text, color) by {
        lemma_shows_in_concat(p0, p1, text, color);
        lemma_shows_in_concat(q1, p2, text, color);
        lemma_shows_in_concat(q2, p3, text, color);
        lemma_shows_in_concat(q3, p4, text, color);
        lemma_shows_in_concat(q4, p5, text, color);
        lemma_shows_in_concat(q5, p6, text, color);
    }
    if let Some(p) = info.position {
        assert(shows_row(p1, "Position: "@ + p@, (200, 255, 200)));
        assert(shows_row(items, "Position: "@ + p@, (200, 255, 200)));
    }
    if let Some((n, sp)) = info.agent_type {
        assert(p2[0] == StatsItemView::Row("Type: "@ + n@, (200, 200, 255)));
        assert(p2[1] == StatsItemView::Row("Move Speed: "@ + sp@, (180, 220, 255)));
        assert(shows_row(p2, "Type: "@ + n@, (200, 200, 255)));
        assert(shows_row(p2, "Move Speed: "@ + sp@, (180, 220, 255)));
        assert(shows_row(items, "Type: "@ + n@, (200, 200, 255)));
        assert(shows_row(items, "Move Speed: "@ + sp@, (180, 220, 255)));
    }
    if let Some(h) = info.hunger {
        assert(shows_row(p3, "Hunger: "@ + h@, (255, 200, 180)));
        assert(shows_row(items, "Hunger: "@ + h@, (255, 200, 180)));
    }
    if let Some(e) = info.energy {
        assert(shows_row(p4, "Energy: "@ + e@, (255, 255, 200)));
        assert(shows_row(items, "Energy: "@ + e@, (255, 255, 200)));
    }
    if let Some(st) = info.state {
        assert(shows_row(p5, "State: "@ + st@, (255, 220, 180)));
        assert(shows_row(items, "State: "@ + st@, (255, 220, 180)));
    }
    if let Some(i) = info.interaction {
        let status = interaction_status(i);
        let r0 = seq![text_row("Interaction: "@, status, interaction_color())];
        let r1 = optional_row("Target: "@, i.target, interaction_color());
        let r2 = optional_row("Last Partner: "@, i.last_partner, interaction_color());
        let r3 = seq![
            StatsItemView::Row(labelled("Recent Partners: "@, i.recent_partners as nat), interaction_color()),
        ];
        assert(p6 == r0 + r1 + r2 + r3);
        lemma_optional_row_shows("Target: "@, i.target, interaction_color());
        lemma_optional_row_shows("Last Partner: "@, i.last_partner, interaction_color());
        assert(r0[0] == StatsItemView::Row("Interaction: "@ + status, (255, 180, 255)));
        assert(shows_row(r0, "Interaction: "@ + status, (255, 180, 255)));
        assert(r3[0] == StatsItemView::Row("Recent Partners: "@ + decimal_digits(i.recent_partners as nat), (255, 180, 255)));
        assert(shows_row(r3, "Recent Partners: "@ + decimal_digits(i.recent_partners as nat), (255, 180, 255)));
        assert forall|text: Seq<char>, color: (u8, u8, u8)|
            shows_row(r0, text, color) || shows_row(r1, text, color) || shows_row(r2, text, color)
                || shows_row(r3, text, color) implies #[trigger] shows_row(p6, text, color) by {
            lemma_shows_in_concat(r0, r1, text, color);
            lemma_shows_in_concat(r0 + r1, r2, text, color);
            lemma_shows_in_concat(r0 + r1 + r2, r3, text, color);
        }
        assert(shows_row(p6, "Interaction: "@ + status, (255, 180, 255)));
        assert(shows_row(items, "Interaction: "@ + status, (255, 180, 255)));
        assert(shows_row(p6, "Recent Partners: "@ + decimal_digits(i.recent_partners as nat), (255, 180, 255)));
        assert(shows_row(items, "Recent Partners: "@ + decimal_digits(i.recent_partners as nat), (255, 180, 255)));
        if let Some(t) = i.target {
            assert(shows_row(r1, "Target: "@ + t@, (255, 180, 255)));
            assert(shows_row(p6, "Target: "@ + t@, (255, 180, 255)));
            assert(shows_row(items, "Target: "@ + t@, (255, 180, 255)));
        }
        if let Some(lp) = i.last_partner {
            assert(shows_row(r2, "Last Partner: "@ + lp@, (255, 180, 255)));
            assert(shows_row(p6, "Last Partner: "@ + lp@, (255, 180, 255)));
            assert(shows_row(items, "Last Partner: "@ + lp@, (255, 180, 255)));
        }
    }
}

/// The lines of the stats window about the selected agent: every known
/// detail is shown, each once, after the entity's line.
pub fn selected_agent_rows(info: &SelectedAgentInfo) -> (items: Vec<StatsItem>)
    ensures
        items_view(items@) == selected_agent_items(*info),
        items@.len() == 1 + known(info.position) + (if info.agent_type is Some {
            6nat
        } else {
            0nat
        }) + known(info.hunger) + known(info.energy) + known(info.state) + match info.interaction {
            Some(i) => 2 + known(i.target) + known(i.last_partner),
            None => 0,
        },
        items@[0]@ == StatsItemView::Row("Selected Agent: "@ + info.entity@, (255, 255, 180)),
        info.position matches Some(p) ==> shows_row(
            items_view(items@),
            "Position: "@ + p@,
            (200, 255, 200),
        ),
        info.agent_type matches Some((n, sp)) ==> shows_row(
            items_view(items@),
            "Type: "@ + n@,
            (200, 200, 255),
        ) && shows_row(items_view(items@), "Move Speed: "@ + sp@, (180, 220, 255)),
        info.hunger matches Some(h) ==> shows_row(items_view(items@), "Hunger: "@ + h@, (255, 200, 180)),
        info.energy matches Some(e) ==> shows_row(items_view(items@), "Energy: "@ + e@, (255, 255, 200)),
        info.state matches Some(st) ==> shows_row(items_view(items@), "State: "@ + st@, (255, 220, 180)),
        info.interaction matches Some(i) ==> {
            &&& shows_row(
                items_view(items@),
                "Interaction: "@ + if i.target is Some {
                    "Interacting"@
                } else if i.cooldown > 0 {
                    "Cooldown"@
                } else {
                    "Idle"@
                },
                (255, 180, 255),
            )
            &&& i.target matches Some(t) ==> shows_row(
                items_view(items@),
                "Target: "@ + t@,
                (255, 180, 255),
            )
            &&& i.last_partner matches Some(lp) ==> shows_row(
                items_view(items@),
                "Last Partner: "@ + lp@,
                (255, 180, 255),
            )
            &&& shows_row(
                items_view(items@),
                "Recent Partners: "@ + decimal_digits(i.recent_partners as nat),
                (255, 180, 255),
            )
        },
{
    let mut items: Vec<StatsItem> = Vec::new();
    push_text_row(&mut items, "Selected Agent: ", info.entity.as_str(), (255, 255, 180));
    push_optional_row(&mut items, "Position: ", &info.position, (200, 255, 200));
    push_agent_type_rows(&mut items, &info.agent_type);
    push_optional_row(&mut items, "Hunger: ", &info.hunger, (255, 200, 180));
    push_optional_row(&mut items, "Energy: ", &info.energy, (255, 255, 200));
    push_optional_row(&mut items, "State: ", &info.state, (255, 220, 180));
    push_interaction_rows(&mut items, &info.interaction);
    assert(items_view(items@) =~= selected_agent_items(*info));
    proof {
        lemma_selected_agent_items_show(*info);
        assert(items_view(items@)[0] == items@[0]@);
    }
    items
}

} // verus!
