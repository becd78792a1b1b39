//! Named simulation profiles (map size, agent count, ticks) and lookup.
use vstd::prelude::*;
use crate::text::str_eq;

verus! {

/// A simulation profile as listed in the profiles file.
#[derive(Debug, Clone)]
pub struct SimProfile {
    pub name: String,
    pub map_width: Option<i32>,
    pub map_height: Option<i32>,
    pub map_size: Option<i32>,
    pub num_agents: usize,
    pub ticks: usize,
    pub benchmark: Option<bool>,
    pub quiet: Option<bool>,
    /// Optional path to a spawn configuration file.
    pub spawn_config: Option<String>,
}

/// A map dimension: the explicit value if given, else the square size if
/// given, else `default`.
pub open spec fn dimension_or(explicit: Option<i32>, size: Option<i32>, default: i32) -> i32 {
    match explicit {
        Some(v) => v,
        None => match size {
            Some(s) => s,
            None => default,
        },
    }
}

fn pick_dimension(explicit: Option<i32>, size: Option<i32>, default: i32) -> (r: i32)
    ensures
        r == dimension_or(explicit, size, default),
{
    match explicit {
        Some(v) => v,
        None => match size {
            Some(s) => s,
            None => default,
        },
    }
}

/// Whether the profile is marked as a benchmark (unmarked means no).
pub open spec fn is_benchmark(p: SimProfile) -> bool {
    p.benchmark == Some(true)
}

impl SimProfile {
    /// The map width and height of this profile: each taken from its own
    /// field, else from `map_size`, else `default`.
    pub fn dimensions(&self, default: i32) -> (r: (i32, i32))
        ensures
            r.0 == dimension_or(self.map_width, self.map_size, default),
            r.1 == dimension_or(self.map_height, self.map_size, default),
    {
        (
            pick_dimension(self.map_width, self.map_size, default),
            pick_dimension(self.map_height, self.map_size, default),
        )
    }

    /// Whether this profile is marked as a benchmark.
    pub fn is_benchmark(&self) -> (b: bool)
        ensures
            b == is_benchmark(*self),
    {
        match self.benchmark {
            Some(b) => b,
            None => false,
        }
    }
}

/// Finds the first profile with the given name.
pub fn find_profile<'a>(profiles: &'a [SimProfile], name: &str) -> (r: Option<&'a SimProfile>)
    ensures
        r is None <==> forall|i: int| 0 <= i < profiles@.len() ==> #[trigger] profiles@[i].name@ != name@,
        r matches Some(p) ==> exists|i: int|
            0 <= i < profiles@.len() && *p == profiles@[i] && profiles@[i].name@ == name@ && forall|j: int|
                0 <= j < i ==> #[trigger] profiles@[j].name@ != name@,
{
    let mut i: usize = 0;
    while i < profiles.len()
        invariant
            i <= profiles@.len(),
            forall|j: int| 0 <= j < i ==> #[trigger] profiles@[j].name@ != name@,
        decreases profiles@.len() - i,
    {
        if str_eq(profiles[i].name.as_str(), name) {
            return Some(&profiles[i]);
        }
        i = i + 1;
    }
    None
}

} // verus!
