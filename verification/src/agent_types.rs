//! Agent types as an agent types file lists them: each entry's type name,
//! colour and movement effect.
use vstd::prelude::*;
use crate::text::str_eq;
use crate::util::{ColorValue, color_of, color_readable, parse_agent_color};

verus! {

/// One entry of an agent types file, as far as it is read here: the `type`
/// text, the `color` entry and the `move_effect` text, each when present.
#[derive(Debug, Clone)]
pub struct AgentEntry {
    pub name: Option<String>,
    pub color: ColorValue,
    pub move_effect: Option<String>,
}

/// How terrain affects an agent type's movement.
#[derive(Debug, Clone, Copy, PartialEq, Eq)]
pub enum MoveEffectKind {
    /// Moves as usual.
    Unaffected,
    /// Cannot move.
    Blocked,
    /// Moves at a cost that the entry's `move_cost` gives.
    Slowed,
}

/// An agent type read from its entry.
#[derive(Debug)]
pub struct AgentTypeInfo {
    pub name: String,
    pub color: (u8, u8, u8),
    pub move_effect: MoveEffectKind,
}

/// The type name of an entry: its `type` text, or empty.
pub open spec fn entry_name(name: Option<String>) -> Seq<char> {
    match name {
        Some(s) => s@,
        None => Seq::empty(),
    }
}

/// The movement effect that a `move_effect` text names: `blocked`,
/// `slowed`, or anything else (or nothing) for unaffected.
pub open spec fn effect_of(tag: Option<String>) -> MoveEffectKind {
    match tag {
        Some(t) => if t@ == "blocked"@ {
            MoveEffectKind::Blocked
        } else if t@ == "slowed"@ {
            MoveEffectKind::Slowed
        } else {
            MoveEffectKind::Unaffected
        },
        None => MoveEffectKind::Unaffected,
    }
}

/// The agent type that an entry stands for.
pub open spec fn type_of_entry(e: AgentEntry, t: AgentTypeInfo) -> bool {
    &&& t.name@ == entry_name(e.name)
    &&& t.color == color_of(e.color)
    &&& t.move_effect == effect_of(e.move_effect)
}

fn effect_from_tag(tag: &Option<String>) -> (k: MoveEffectKind)
    ensures
        k == effect_of(*tag),
{
    match tag {
        Some(t) => if str_eq(t.as_str(), "blocked") {
            MoveEffectKind::Blocked
        } else if str_eq(t.as_str(), "slowed") {
            MoveEffectKind::Slowed
        } else {
            MoveEffectKind::Unaffected
        },
        None => MoveEffectKind::Unaffected,
    }
}

/// The agent types of an agent types file, one per entry in order: the
/// entry's type name (empty when it has none), its colour
/// (`parse_agent_color`) and its movement effect.
pub fn load_agent_types(entries: &Vec<AgentEntry>) -> (types: Vec<AgentTypeInfo>)
    requires
        forall|i: int| 0 <= i < entries@.len() ==> color_readable(#[trigger] entries@[i].color),
    ensures
        types@.len() == entries@.len(),
        forall|i: int| 0 <= i < entries@.len() ==> type_of_entry(#[trigger] entries@[i], types@[i]),
{
    let mut types: Vec<AgentTypeInfo> = Vec::new();
    let mut i: usize = 0;
    while i < entries.len()
        invariant
            i <= entries@.len(),
            forall|j: int| 0 <= j < entries@.len() ==> color_readable(#[trigger] entries@[j].color),
            types@.len() == i,
            forall|j: int| 0 <= j < i ==> type_of_entry(#[trigger] entries@[j], types@[j]),
        decreases entries.len() - i,
    {
        let e = &entries[i];
        let name = match &e.name {
            Some(s) => s.clone(),
            None => String::new(),
        };
        let color = parse_agent_color(&e.color);
        let move_effect = effect_from_tag(&e.move_effect);
        types.push(AgentTypeInfo { name, color, move_effect });
        i = i + 1;
    }
    types
}

} // verus!
