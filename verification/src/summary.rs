//! The summary written at the end of a headless run, above the final ASCII
//! snapshot.
use vstd::prelude::*;
use vstd::string::StringExecFns;
use crate::text::decimal_digits;
use crate::text::push_decimal;

verus! {

/// One line per agent type: two spaces, the type name, a colon and the count.
pub open spec fn agent_count_lines(counts: Seq<(String, usize)>) -> Seq<char>
    decreases counts.len(),
{
    if counts.len() == 0 {
        Seq::empty()
    } else {
        agent_count_lines(counts.drop_last()) + "  "@ + counts.last().0@ + ": "@ + decimal_digits(
            counts.last().1 as nat,
        ) + "\n"@
    }
}

/// The summary text: a heading, the total number of interactions, the average
/// per tick (as the caller formatted it), then the agent counts and a blank line.
pub open spec fn summary_text(
    total_interactions: nat,
    average_per_tick: Seq<char>,
    counts: Seq<(String, usize)>,
) -> Seq<char> {
    "# Simulation Summary\n"@ + "Total interactions: "@ + decimal_digits(total_interactions)
        + "\n"@ + "Average interactions per tick: "@ + average_per_tick + "\n"@
        + "Agent counts at end:\n"@ + agent_count_lines(counts) + "\n"@
}

/// Writes the summary of a run: its total number of interactions, their
/// average per tick and how many agents of each type there are at the end.
pub fn simulation_summary(
    total_interactions: usize,
    average_per_tick: &str,
    counts: &Vec<(String, usize)>,
) -> (summary: String)
    ensures
        summary@ == summary_text(total_interactions as nat, average_per_tick@, counts@),
{
    let mut summary = String::new();
    summary.append("# Simulation Summary\n");
    summary.append("Total interactions: ");
    push_decimal(&mut summary, total_interactions);
    summary.append("\n");
    summary.append("Average interactions per tick: ");
    summary.append(average_per_tick);
    summary.append("\n");
    summary.append("Agent counts at end:\n");
    let ghost head = summary@;
    let mut i: usize = 0;
    assert(counts@.take(0) =~= Seq::<(String, usize)>::empty());
    assert(head + agent_count_lines(counts@.take(0)) =~= head);
    while i < counts.len()
        invariant
            i <= counts.len(),
            summary@ == head + agent_count_lines(counts@.take(i as int)),
        decreases counts.len() - i,
    {
        assert(counts@.take(i + 1).drop_last() =~= counts@.take(i as int));
        summary.append("  ");
        summary.append(counts[i].0.as_str());
        summary.append(": ");
        push_decimal(&mut summary, counts[i].1);
        summary.append("\n");
        assert(summary@ =~= head + agent_count_lines(counts@.take(i + 1)));
        i = i + 1;
    }
    assert(counts@.take(counts.len() as int) =~= counts@);
    summary.append("\n");
    assert(summary@ =~= summary_text(total_interactions as nat, average_per_tick@, counts@));
    summary
}

} // verus!
