//! The ranking of scored agendas: the most valuable first.

use crate::names::HandicraftName;
use crate::scoring::Agenda;
use vstd::prelude::*;

verus! {

/// A row of agendas is ranked when none is worth more than one before it.
pub open spec fn is_ranked(agendas: Seq<Agenda>) -> bool {
    forall|i: int, j: int|
        0 <= i <= j < agendas.len() ==> (#[trigger] agendas[i]).total_value >= (#[trigger] agendas[j]).total_value
}

/// The sequences of crafts of a row of agendas, in the order of the row.
pub open spec fn paths_of(agendas: Seq<Agenda>) -> Seq<Seq<HandicraftName>> {
    agendas.map_values(|agenda: Agenda| agenda.handicrafts@)
}

/// In a ranked row, an agenda that is worth more than another stands before
/// it.
pub proof fn lemma_ranked_precedence(agendas: Seq<Agenda>, one: int, other: int)
    requires
        is_ranked(agendas),
        0 <= one < agendas.len(),
        0 <= other < agendas.len(),
        agendas[one].total_value > agendas[other].total_value,
    ensures
        one < other,
{
    if other <= one {
        assert(agendas[other].total_value >= agendas[one].total_value);
    }
}

/// Inserting an agenda into a row inserts its sequence of crafts into the
/// sequences of the row: it is there afterwards, and so is what was there
/// before, and nothing else.
pub proof fn lemma_paths_of_insert(agendas: Seq<Agenda>, position: int, agenda: Agenda)
    requires
        0 <= position <= agendas.len(),
    ensures
        paths_of(agendas.insert(position, agenda)) == paths_of(agendas).insert(position, agenda.handicrafts@),
        forall|path: Seq<HandicraftName>| #[trigger]
            paths_of(agendas.insert(position, agenda)).contains(path) <==> (path == agenda.handicrafts@
                || paths_of(agendas).contains(path)),
        paths_of(agendas).no_duplicates() && !paths_of(agendas).contains(agenda.handicrafts@) ==> paths_of(
            agendas.insert(position, agenda),
        ).no_duplicates(),
{
    let before = paths_of(agendas);
    let after = paths_of(agendas.insert(position, agenda));
    assert(after =~= before.insert(position, agenda.handicrafts@));
    assert forall|path: Seq<HandicraftName>| #[trigger]
        after.contains(path) <==> (path == agenda.handicrafts@ || before.contains(path)) by {
        if after.contains(path) {
            let k = choose|k: int| 0 <= k < after.len() && after[k] == path;
            if k < position {
                assert(before[k] == path);
            } else if k > position {
                assert(before[k - 1] == path);
            }
        }
        if before.contains(path) {
            let k = choose|k: int| 0 <= k < before.len() && before[k] == path;
            if k < position {
                assert(after[k] == path);
            } else {
                assert(after[k + 1] == path);
            }
        }
        assert(after[position] == agenda.handicrafts@);
    }
    if before.no_duplicates() && !before.contains(agenda.handicrafts@) {
        assert forall|a: int, b: int| 0 <= a < after.len() && 0 <= b < after.len() && a != b implies after[a]
            != after[b] by {
            let from_a = if a < position {
                a
            } else {
                a - 1
            };
            let from_b = if b < position {
                b
            } else {
                b - 1
            };
            if a != position {
                assert(after[a] == before[from_a]);
                assert(before.contains(before[from_a]));
            }
            if b != position {
                assert(after[b] == before[from_b]);
                assert(before.contains(before[from_b]));
            }
        }
    }
}

/// Puts an agenda into a ranked row, behind every agenda that is worth at
/// least as much and before every agenda that is worth less. Tells where it
/// went.
pub fn rank_insert(ranked: &mut Vec<Agenda>, agenda: Agenda) -> (position: usize)
    requires
        is_ranked(old(ranked)@),
    ensures
        is_ranked(final(ranked)@),
        position <= old(ranked)@.len(),
        final(ranked)@ == old(ranked)@.insert(position as int, agenda),
        forall|k: int| 0 <= k < position ==> (#[trigger] old(ranked)@[k]).total_value >= agenda.total_value,
        forall|k: int|
            position <= k < old(ranked)@.len() ==> (#[trigger] old(ranked)@[k]).total_value < agenda.total_value,
{
    let mut position: usize = 0;
    while position < ranked.len() && ranked[position].total_value >= agenda.total_value
        invariant
            ranked@ == old(ranked)@,
            position <= ranked.len(),
            forall|k: int| 0 <= k < position ==> (#[trigger] ranked@[k]).total_value >= agenda.total_value,
        decreases ranked.len() - position,
    {
        position += 1;
    }
    proof {
        assert forall|k: int| position <= k < ranked@.len() implies (#[trigger] ranked@[k]).total_value
            < agenda.total_value by {
            assert(ranked@[position as int].total_value >= ranked@[k].total_value);
        }
    }
    ranked.insert(position, agenda);
    proof {
        let before = old(ranked)@;
        let after = ranked@;
        assert forall|i: int, j: int| 0 <= i <= j < after.len() implies (#[trigger] after[i]).total_value >= (
        #[trigger] after[j]).total_value by {
            let from_i = if i < position {
                i
            } else {
                i - 1
            };
            let from_j = if j < position {
                j
            } else {
                j - 1
            };
            if i != position && j != position {
                assert(after[i] == before[from_i]);
                assert(after[j] == before[from_j]);
                assert(before[from_i].total_value >= before[from_j].total_value);
            } else if i != position {
                assert(after[i] == before[from_i]);
            } else if j != position {
                assert(after[j] == before[from_j]);
            }
        }
    }
    position
}

} // verus!
