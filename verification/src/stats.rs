//! Statistics shown in the stats window: how many agents there are of each
//! type, listed by type name in the order of `str`'s `Ord`, and their total.
use vstd::prelude::*;
use vstd::utf8::encode_utf8;
use vstd::utf8::encode_utf8_decode_utf8;
use std::collections::VecDeque;

verus! {

/// Strict lexicographic order on byte strings: the order in which `str`'s
/// `Ord` compares two strings.
pub open spec fn bytes_less(a: Seq<u8>, b: Seq<u8>) -> bool
    decreases a.len(),
{
    if b.len() == 0 {
        false
    } else if a.len() == 0 {
        true
    } else if a[0] != b[0] {
        a[0] < b[0]
    } else {
        bytes_less(a.drop_first(), b.drop_first())
    }
}

/// Type names are ordered by their UTF-8 bytes, as `String`'s `Ord` orders them.
pub open spec fn name_less(a: Seq<char>, b: Seq<char>) -> bool {
    bytes_less(encode_utf8(a), encode_utf8(b))
}

/// No byte string comes before itself.
pub proof fn lemma_bytes_less_irreflexive(a: Seq<u8>)
    ensures
        !bytes_less(a, a),
    decreases a.len(),
{
    if a.len() > 0 {
        lemma_bytes_less_irreflexive(a.drop_first());
    }
}

/// The byte order is transitive.
pub proof fn lemma_bytes_less_transitive(a: Seq<u8>, b: Seq<u8>, c: Seq<u8>)
    requires
        bytes_less(a, b),
        bytes_less(b, c),
    ensures
        bytes_less(a, c),
    decreases a.len(),
{
    if a.len() > 0 && a[0] == b[0] && b[0] == c[0] {
        lemma_bytes_less_transitive(a.drop_first(), b.drop_first(), c.drop_first());
    }
}

/// Of two different byte strings, one comes before the other.
pub proof fn lemma_bytes_less_total(a: Seq<u8>, b: Seq<u8>)
    requires
        a != b,
    ensures
        bytes_less(a, b) || bytes_less(b, a),
    decreases a.len(),
{
    if a.len() > 0 && b.len() > 0 && a[0] == b[0] {
        assert(a.drop_first() != b.drop_first()) by {
            if a.drop_first() == b.drop_first() {
                assert(a =~= seq![a[0]] + a.drop_first());
                assert(b =~= seq![b[0]] + b.drop_first());
            }
        }
        lemma_bytes_less_total(a.drop_first(), b.drop_first());
    } else if a.len() == 0 && b.len() == 0 {
        assert(a =~= b);
    }
}

/// Byte strings are ordered by their first difference: where they agree up to
/// position `i` and differ there, the one with the smaller byte (as a number)
/// comes first; a proper prefix comes before the longer string, and nothing
/// comes before one of its own prefixes.
pub proof fn lemma_bytes_less_first_difference(a: Seq<u8>, b: Seq<u8>, i: int)
    requires
        0 <= i <= a.len(),
        i <= b.len(),
        a.take(i) == b.take(i),
    ensures
        i < a.len() && i < b.len() && a[i] != b[i] ==> (bytes_less(a, b) <==> a[i] < b[i]),
        i == a.len() && i < b.len() ==> bytes_less(a, b),
        i == b.len() ==> !bytes_less(a, b),
    decreases i,
{
    if i > 0 {
        assert(a[0] == a.take(i)[0] && b[0] == b.take(i)[0]);
        assert(a.drop_first().take(i - 1) =~= a.take(i).drop_first());
        assert(b.drop_first().take(i - 1) =~= b.take(i).drop_first());
        lemma_bytes_less_first_difference(a.drop_first(), b.drop_first(), i - 1);
        assert(a.drop_first()[i - 1] == a[i] || i == a.len());
    }
}

/// Type names are ordered by their first differing UTF-8 byte, compared as a
/// number; a name that the other starts with comes first.
pub proof fn lemma_name_less_first_difference(a: Seq<char>, b: Seq<char>, i: int)
    requires
        0 <= i <= encode_utf8(a).len(),
        i <= encode_utf8(b).len(),
        encode_utf8(a).take(i) == encode_utf8(b).take(i),
    ensures
        i < encode_utf8(a).len() && i < encode_utf8(b).len() && encode_utf8(a)[i] != encode_utf8(b)[i]
            ==> (name_less(a, b) <==> encode_utf8(a)[i] < encode_utf8(b)[i]),
        i == encode_utf8(a).len() && i < encode_utf8(b).len() ==> name_less(a, b),
        i == encode_utf8(b).len() ==> !name_less(a, b),
{
    lemma_bytes_less_first_difference(encode_utf8(a), encode_utf8(b), i);
}

/// The name order is a strict total order on type names.
pub proof fn lemma_name_order(a: Seq<char>, b: Seq<char>, c: Seq<char>)
    ensures
        !name_less(a, a),
        name_less(a, b) && name_less(b, c) ==> name_less(a, c),
        a != b ==> name_less(a, b) || name_less(b, a),
{
    lemma_bytes_less_irreflexive(encode_utf8(a));
    if name_less(a, b) && name_less(b, c) {
        lemma_bytes_less_transitive(encode_utf8(a), encode_utf8(b), encode_utf8(c));
    }
    if a != b {
        encode_utf8_decode_utf8(a);
        encode_utf8_decode_utf8(b);
        lemma_bytes_less_total(encode_utf8(a), encode_utf8(b));
    }
}

/// Compares two byte strings as `str`'s `Ord` does.
fn bytes_lt(a: &[u8], b: &[u8]) -> (r: bool)
    ensures
        r == bytes_less(a@, b@),
{
    let mut i: usize = 0;
    assert(a@.skip(0) =~= a@);
    assert(b@.skip(0) =~= b@);
    while i < a.len() && i < b.len()
        invariant
            i <= a.len(),
            i <= b.len(),
            bytes_less(a@, b@) == bytes_less(a@.skip(i as int), b@.skip(i as int)),
        decreases a.len() - i,
    {
        if a[i] != b[i] {
            return a[i] < b[i];
        }
        assert(a@.skip(i as int).drop_first() =~= a@.skip(i + 1));
        assert(b@.skip(i as int).drop_first() =~= b@.skip(i + 1));
        i = i + 1;
    }
    i < b.len()
}

/// Compares two type names as `String`'s `Ord` does.
pub fn name_lt(a: &String, b: &String) -> (r: bool)
    ensures
        r == name_less(a@, b@),
{
    bytes_lt(a.as_str().as_bytes(), b.as_str().as_bytes())
}


/// How many of `names` are `name`.
pub open spec fn occurrences(names: Seq<String>, name: Seq<char>) -> nat
    decreases names.len(),
{
    if names.len() == 0 {
        0
    } else {
        occurrences(names.drop_last(), name) + if names.last()@ == name {
            1nat
        } else {
            0nat
        }
    }
}

/// The sum of the counts of a tally.
pub open spec fn total_count(counts: Seq<(String, usize)>) -> nat
    decreases counts.len(),
{
    if counts.len() == 0 {
        0
    } else {
        total_count(counts.drop_last()) + counts.last().1 as nat
    }
}

/// `name` is one of the type names of the tally.
pub open spec fn has_key(counts: Seq<(String, usize)>, name: Seq<char>) -> bool {
    exists|i: int| 0 <= i < counts.len() && #[trigger] counts[i].0@ == name
}

/// `counts` lists each type name that occurs in `names` once, with how often it
/// occurs, and in the order of `name_less`.
pub open spec fn is_tally(names: Seq<String>, counts: Seq<(String, usize)>) -> bool {
    &&& forall|i: int, j: int|
        0 <= i < j < counts.len() ==> name_less(#[trigger] counts[i].0@, #[trigger] counts[j].0@)
    &&& forall|i: int|
        0 <= i < counts.len() ==> #[trigger] counts[i].1 == occurrences(names, counts[i].0@)
            && counts[i].1 > 0
    &&& forall|k: int| 0 <= k < names.len() ==> has_key(counts, #[trigger] names[k]@)
}

proof fn lemma_occurrences_push(names: Seq<String>, x: String, name: Seq<char>)
    ensures
        occurrences(names.push(x), name) == occurrences(names, name) + if x@ == name {
            1nat
        } else {
            0nat
        },
{
    assert(names.push(x).drop_last() =~= names);
}

proof fn lemma_occurrences_absent(names: Seq<String>, name: Seq<char>)
    requires
        forall|k: int| 0 <= k < names.len() ==> (#[trigger] names[k])@ != name,
    ensures
        occurrences(names, name) == 0,
    decreases names.len(),
{
    if names.len() > 0 {
        let rest = names.drop_last();
        assert forall|k: int| 0 <= k < rest.len() implies (#[trigger] rest[k])@ != name by {
            assert(rest[k] == names[k]);
        }
        lemma_occurrences_absent(rest, name);
    }
}

proof fn lemma_entry_within_total(counts: Seq<(String, usize)>, i: int)
    requires
        0 <= i < counts.len(),
    ensures
        counts[i].1 <= total_count(counts),
    decreases counts.len(),
{
    if i < counts.len() - 1 {
        lemma_entry_within_total(counts.drop_last(), i);
    }
}

proof fn lemma_total_update(counts: Seq<(String, usize)>, i: int, e: (String, usize))
    requires
        0 <= i < counts.len(),
    ensures
        total_count(counts.update(i, e)) + counts[i].1 == total_count(counts) + e.1,
    decreases counts.len(),
{
    let u = counts.update(i, e);
    if i == counts.len() - 1 {
        assert(u.drop_last() =~= counts.drop_last());
    } else {
        assert(u.drop_last() =~= counts.drop_last().update(i, e));
        lemma_total_update(counts.drop_last(), i, e);
    }
}

proof fn lemma_total_insert(counts: Seq<(String, usize)>, i: int, e: (String, usize))
    requires
        0 <= i <= counts.len(),
    ensures
        total_count(counts.insert(i, e)) == total_count(counts) + e.1,
    decreases counts.len(),
{
    let u = counts.insert(i, e);
    if i == counts.len() {
        assert(u.drop_last() =~= counts);
    } else {
        assert(u.drop_last() =~= counts.drop_last().insert(i, e));
        lemma_total_insert(counts.drop_last(), i, e);
    }
}

/// Two entries of a tally have different names.
proof fn lemma_tally_keys_distinct(counts: Seq<(String, usize)>, i: int, j: int)
    requires
        forall|a: int, b: int|
            0 <= a < b < counts.len() ==> name_less(#[trigger] counts[a].0@, #[trigger] counts[b].0@),
        0 <= i < counts.len(),
        0 <= j < counts.len(),
        i != j,
    ensures
        counts[i].0@ != counts[j].0@,
{
    lemma_name_order(counts[i].0@, counts[j].0@, counts[i].0@);
    lemma_name_order(counts[j].0@, counts[i].0@, counts[j].0@);
}

/// Counting one more agent of a type that is already in the tally.
proof fn lemma_tally_found(names: Seq<String>, x: String, counts: Seq<(String, usize)>, pos: int)
    requires
        is_tally(names, counts),
        0 <= pos < counts.len(),
        counts[pos].0@ == x@,
        counts[pos].1 < usize::MAX,
    ensures
        is_tally(
            names.push(x),
            counts.update(pos, (counts[pos].0, (counts[pos].1 + 1) as usize)),
        ),
{
    let after = names.push(x);
    let u = counts.update(pos, (counts[pos].0, (counts[pos].1 + 1) as usize));
    assert forall|i: int| 0 <= i < u.len() implies #[trigger] u[i].1 == occurrences(after, u[i].0@)
        && u[i].1 > 0 by {
        lemma_occurrences_push(names, x, u[i].0@);
        if i != pos {
            lemma_tally_keys_distinct(counts, i, pos);
        }
    }
    assert forall|k: int| 0 <= k < after.len() implies has_key(u, #[trigger] after[k]@) by {
        if k < names.len() {
            assert(after[k] == names[k]);
            assert(has_key(counts, names[k]@));
            let i = choose|i: int| 0 <= i < counts.len() && #[trigger] counts[i].0@ == names[k]@;
            assert(u[i].0@ == after[k]@);
        } else {
            assert(u[pos].0@ == after[k]@);
        }
    }
}

/// Counting the first agent of a type, whose name goes in at `pos`.
proof fn lemma_tally_new(names: Seq<String>, x: String, counts: Seq<(String, usize)>, pos: int)
    requires
        is_tally(names, counts),
        0 <= pos <= counts.len(),
        forall|i: int| 0 <= i < pos ==> name_less(#[trigger] counts[i].0@, x@),
        pos < counts.len() ==> name_less(x@, counts[pos].0@),
    ensures
        is_tally(names.push(x), counts.insert(pos, (x, 1usize))),
{
    let after = names.push(x);
    let u = counts.insert(pos, (x, 1usize));
    assert forall|i: int| pos <= i < counts.len() implies name_less(x@, #[trigger] counts[i].0@) by {
        if i > pos {
            lemma_name_order(x@, counts[pos].0@, counts[i].0@);
        }
    }
    assert forall|i: int| 0 <= i < counts.len() implies #[trigger] counts[i].0@ != x@ by {
        lemma_name_order(x@, counts[i].0@, x@);
    }
    assert(occurrences(names, x@) == 0) by {
        assert forall|k: int| 0 <= k < names.len() implies (#[trigger] names[k])@ != x@ by {
            assert(has_key(counts, names[k]@));
        }
        lemma_occurrences_absent(names, x@);
    }
    assert forall|i: int, j: int| 0 <= i < j < u.len() implies name_less(
        #[trigger] u[i].0@,
        #[trigger] u[j].0@,
    ) by {
        if j < pos {
        } else if j == pos {
        } else if i < pos {
            lemma_name_order(counts[i].0@, x@, counts[j - 1].0@);
        } else if i == pos {
        } else {
            assert(u[i] == counts[i - 1]);
        }
    }
    assert forall|i: int| 0 <= i < u.len() implies #[trigger] u[i].1 == occurrences(after, u[i].0@)
        && u[i].1 > 0 by {
        lemma_occurrences_push(names, x, u[i].0@);
    }
    assert forall|k: int| 0 <= k < after.len() implies has_key(u, #[trigger] after[k]@) by {
        if k < names.len() {
            assert(after[k] == names[k]);
            assert(has_key(counts, names[k]@));
            let i = choose|i: int| 0 <= i < counts.len() && #[trigger] counts[i].0@ == names[k]@;
            if i < pos {
                assert(u[i].0@ == after[k]@);
            } else {
                assert(u[i + 1].0@ == after[k]@);
            }
        } else {
            assert(u[pos].0@ == after[k]@);
        }
    }
}

/// Counts the agents of each type, given the type name of every agent: one
/// entry per type name, in the order of `String`'s `Ord`, with how many agents
/// have that type. The counts add up to the number of agents.
pub fn agent_type_counts(names: &Vec<String>) -> (counts: Vec<(String, usize)>)
    ensures
        is_tally(names@, counts@),
        total_count(counts@) == names.len(),
{
    let mut counts: Vec<(String, usize)> = Vec::new();
    let mut k: usize = 0;
    assert(names@.take(0) =~= Seq::<String>::empty());
    while k < names.len()
        invariant
            k <= names.len(),
            is_tally(names@.take(k as int), counts@),
            total_count(counts@) == k,
        decreases names.len() - k,
    {
        let name = &names[k];
        let ghost before = names@.take(k as int);
        assert(names@.take(k + 1) =~= before.push(*name));
        let mut pos: usize = 0;
        loop
            invariant
                pos <= counts.len(),
                forall|i: int| 0 <= i < pos ==> name_less(#[trigger] counts@[i].0@, name@),
            ensures
                pos <= counts.len(),
                forall|i: int| 0 <= i < pos ==> name_less(#[trigger] counts@[i].0@, name@),
                pos < counts.len() ==> !name_less(counts@[pos as int].0@, name@),
            decreases counts.len() - pos,
        {
            if pos == counts.len() {
                break;
            }
            if !name_lt(&counts[pos].0, name) {
                break;
            }
            pos = pos + 1;
        }
        if pos < counts.len() && counts[pos].0 == *name {
            let n = counts[pos].1;
            proof {
                lemma_entry_within_total(counts@, pos as int);
                lemma_tally_found(before, *name, counts@, pos as int);
                lemma_total_update(counts@, pos as int, (counts@[pos as int].0, (n + 1) as usize));
            }
            let key = counts[pos].0.clone();
            counts.set(pos, (key, n + 1));
        } else {
            proof {
                if pos < counts.len() {
                    lemma_name_order(name@, counts@[pos as int].0@, name@);
                }
                lemma_tally_new(before, *name, counts@, pos as int);
                lemma_total_insert(counts@, pos as int, (*name, 1usize));
            }
            counts.insert(pos, (name.clone(), 1));
        }
        k = k + 1;
    }
    assert(names@.take(names.len() as int) =~= names@);
    counts
}

/// The number of agents in a tally: the sum of its counts.
pub fn total_agents(counts: &Vec<(String, usize)>) -> (total: usize)
    requires
        total_count(counts@) <= usize::MAX,
    ensures
        total == total_count(counts@),
{
    let mut total: usize = 0;
    let mut i: usize = 0;
    assert(counts@.take(0) =~= Seq::<(String, usize)>::empty());
    while i < counts.len()
        invariant
            i <= counts.len(),
            total == total_count(counts@.take(i as int)),
            total_count(counts@) <= usize::MAX,
        decreases counts.len() - i,
    {
        assert(counts@.take(i + 1).drop_last() =~= counts@.take(i as int));
        proof {
            lemma_total_prefix(counts@, i + 1);
        }
        total = total + counts[i].1;
        i = i + 1;
    }
    assert(counts@.take(counts.len() as int) =~= counts@);
    total
}

proof fn lemma_total_prefix(counts: Seq<(String, usize)>, n: int)
    requires
        0 <= n <= counts.len(),
    ensures
        total_count(counts.take(n)) <= total_count(counts),
    decreases counts.len(),
{
    if n < counts.len() {
        assert(counts.drop_last().take(n) =~= counts.take(n));
        lemma_total_prefix(counts.drop_last(), n);
    } else {
        assert(counts.take(n) =~= counts);
    }
}

/// The statistics shown in the stats window, refreshed from the world now and
/// then rather than on every frame.
#[derive(Debug, Clone)]
pub struct CachedStats {
    pub agent_counts: Vec<(String, usize)>,
    pub food_count: usize,
    pub food_spawned_per_tick: usize,
    pub food_collected_per_tick: usize,
    pub agent_interactions: usize,
    pub active_interactions: usize,
    pub active_interactions_history: VecDeque<usize>,
}

impl Default for CachedStats {
    fn default() -> (stats: Self)
        ensures
            stats.agent_counts@ == Seq::<(String, usize)>::empty(),
            stats.food_count == 0,
            stats.food_spawned_per_tick == 0,
            stats.food_collected_per_tick == 0,
            stats.agent_interactions == 0,
            stats.active_interactions == 0,
            stats.active_interactions_history@ == Seq::<usize>::empty(),
    {
        CachedStats {
            agent_counts: Vec::new(),
            food_count: 0,
            food_spawned_per_tick: 0,
            food_collected_per_tick: 0,
            agent_interactions: 0,
            active_interactions: 0,
            active_interactions_history: VecDeque::new(),
        }
    }
}

/// Refreshes the cached statistics from what the world holds now: the type
/// name of every agent, the number of food items, the food spawned and
/// collected in the last tick (when those statistics are kept) and the
/// interaction statistics (when those are kept). Statistics that are not kept
/// read as zero, and the interaction history as empty.
pub fn update_cached_stats(
    agent_type_names: &Vec<String>,
    food_count: usize,
    food_stats: Option<(usize, usize)>,
    interaction_stats: Option<(usize, usize, VecDeque<usize>)>,
    cached: &mut CachedStats,
)
    ensures
        is_tally(agent_type_names@, final(cached).agent_counts@),
        total_count(final(cached).agent_counts@) == agent_type_names.len(),
        final(cached).food_count == food_count,
        match food_stats {
            Some((spawned, collected)) => final(cached).food_spawned_per_tick == spawned
                && final(cached).food_collected_per_tick == collected,
            None => final(cached).food_spawned_per_tick == 0
                && final(cached).food_collected_per_tick == 0,
        },
        match interaction_stats {
            Some((interactions, active, history)) => final(cached).agent_interactions
                == interactions && final(cached).active_interactions == active
                && final(cached).active_interactions_history@ == history@,
            None => final(cached).agent_interactions == 0 && final(cached).active_interactions
                == 0 && final(cached).active_interactions_history@ == Seq::<usize>::empty(),
        },
{
    cached.agent_counts = agent_type_counts(agent_type_names);
    cached.food_count = food_count;
    match food_stats {
        Some((spawned, collected)) => {
            cached.food_spawned_per_tick = spawned;
            cached.food_collected_per_tick = collected;
        },
        None => {
            cached.food_spawned_per_tick = 0;
            cached.food_collected_per_tick = 0;
        },
    }
    match interaction_stats {
        Some((interactions, active, history)) => {
            cached.agent_interactions = interactions;
            cached.active_interactions = active;
            cached.active_interactions_history = history;
        },
        None => {
            cached.agent_interactions = 0;
            cached.active_interactions = 0;
            cached.active_interactions_history = VecDeque::new();
        },
    }
}

/// Whether the counts of a tally add up to a number that fits in `usize`.
pub fn total_count_fits(counts: &Vec<(String, usize)>) -> (fits: bool)
    ensures
        fits == (total_count(counts@) <= usize::MAX),
{
    let mut total: usize = 0;
    let mut i: usize = 0;
    assert(counts@.take(0) =~= Seq::<(String, usize)>::empty());
    while i < counts.len()
        invariant
            i <= counts.len(),
            total == total_count(counts@.take(i as int)),
        decreases counts.len() - i,
    {
        assert(counts@.take(i + 1).drop_last() =~= counts@.take(i as int));
        match total.checked_add(counts[i].1) {
            Some(t) => {
                total = t;
            },
            None => {
                proof {
                    lemma_total_prefix(counts@, i + 1);
                }
                return false;
            },
        }
        i = i + 1;
    }
    assert(counts@.take(counts.len() as int) =~= counts@);
    true
}

} // verus!
