//! The generator: from the parsed list to the emitted guard blocks.
//!
//! For the `i`-th gated expression the output holds one guard block carrying
//! the body and, for every other index `j` in list order, one conflict
//! diagnostic that the host emits under gate `j` inside block `i`, so that a
//! build with both gates active fails with the message
//! `<gate i> conflicts with <gate j>`. Pairs are enumerated once per side:
//! with `N` items the output holds `N * (N - 1)` diagnostics in all.

use vstd::prelude::*;

verus! {

use vstd::string::StringExecFns;

use crate::input::{items_v, ConflictingInput, GatedExprV};

/// One conflict diagnostic: the other gate it is emitted under, and the
/// build-failure message naming both gates.
#[derive(Debug)]
pub struct Conflict {
    pub gate: String,
    pub message: String,
}

/// Mathematical image of a [`Conflict`].
pub struct ConflictV {
    pub gate: Seq<char>,
    pub message: Seq<char>,
}

impl View for Conflict {
    type V = ConflictV;

    open spec fn view(&self) -> ConflictV {
        ConflictV { gate: self.gate@, message: self.message@ }
    }
}

/// The conflict sequence, element by element, as mathematical values.
pub open spec fn conflicts_v(s: Seq<Conflict>) -> Seq<ConflictV> {
    s.map_values(|c: Conflict| c@)
}

/// One top-level output block: included only when its own gate is active; it
/// carries the body unchanged and the conflict diagnostics against every
/// other item.
#[derive(Debug)]
pub struct GuardBlock {
    pub gate: String,
    pub body: usize,
    pub conflicts: Vec<Conflict>,
}

/// Mathematical image of a [`GuardBlock`].
pub struct GuardBlockV {
    pub gate: Seq<char>,
    pub body: usize,
    pub conflicts: Seq<ConflictV>,
}

impl View for GuardBlock {
    type V = GuardBlockV;

    open spec fn view(&self) -> GuardBlockV {
        GuardBlockV { gate: self.gate@, body: self.body, conflicts: conflicts_v(self.conflicts@) }
    }
}

/// The block sequence, element by element, as mathematical values.
pub open spec fn blocks_v(s: Seq<GuardBlock>) -> Seq<GuardBlockV> {
    s.map_values(|b: GuardBlock| b@)
}

/// The build-failure message for the pair `(gi, gj)`.
pub open spec fn conflict_message(gi: Seq<char>, gj: Seq<char>) -> Seq<char> {
    gi + " conflicts with "@ + gj
}

/// The diagnostic that block `i` carries against item `j`.
pub open spec fn conflict_at(items: Seq<GatedExprV>, i: int, j: int) -> ConflictV {
    ConflictV {
        gate: items[j].gate,
        message: conflict_message(items[i].gate, items[j].gate),
    }
}

/// The diagnostics of block `i`: one against every index other than `i`, in
/// list order.
pub open spec fn conflicts_spec(items: Seq<GatedExprV>, i: int) -> Seq<ConflictV> {
    Seq::new((items.len() - 1) as nat, |k: int| conflict_at(items, i, if k < i { k } else { k + 1 }))
}

/// The whole output: one guard block per item, in input order.
pub open spec fn generate_spec(items: Seq<GatedExprV>) -> Seq<GuardBlockV> {
    Seq::new(items.len(), |i: int| GuardBlockV {
        gate: items[i].gate,
        body: items[i].body,
        conflicts: conflicts_spec(items, i),
    })
}

/// Builds the message `<gi> conflicts with <gj>`.
fn build_message(gi: &String, gj: &String) -> (m: String)
    ensures
        m@ == conflict_message(gi@, gj@),
{
    let mut m = gi.clone();
    m.append(" conflicts with ");
    m.append(gj.as_str());
    m
}

/// Lays out the output blocks for the parsed list: exactly the structure
/// that [`generate_spec`] assigns to it. A pure function of the input list,
/// so re-running it on an identical list gives an identical output.
pub fn generate(input: &ConflictingInput) -> (out: Vec<GuardBlock>)
    ensures
        blocks_v(out@) == generate_spec(input@),
{
    let n = input.items.len();
    let mut out: Vec<GuardBlock> = Vec::new();
    let mut i: usize = 0;
    while i < n
        invariant
            n == input.items@.len(),
            i <= n,
            out@.len() == i,
            forall|p: int| 0 <= p < i ==> out@[p]@ == generate_spec(input@)[p],
        decreases n - i,
    {
        let mut conflicts: Vec<Conflict> = Vec::new();
        let mut j: usize = 0;
        while j < n
            invariant
                n == input.items@.len(),
                i < n,
                j <= n,
                conflicts@.len() == (if j <= i { j as int } else { j - 1 }),
                forall|k: int| 0 <= k < conflicts@.len() ==> conflicts@[k]@
                    == conflict_at(input@, i as int, if k < i { k } else { k + 1 }),
            decreases n - j,
        {
            if j != i {
                let message = build_message(&input.items[i].gate, &input.items[j].gate);
                let c = Conflict { gate: input.items[j].gate.clone(), message };
                let ghost cs0 = conflicts@;
                conflicts.push(c);
                proof {
                    assert(input@[j as int] == input.items@[j as int]@);
                    assert(input@[i as int] == input.items@[i as int]@);
                    assert(c@ == conflict_at(input@, i as int, j as int));
                    assert forall|k: int| 0 <= k < conflicts@.len() implies conflicts@[k]@
                        == conflict_at(input@, i as int, if k < i { k } else { k + 1 }) by {
                        if k < cs0.len() {
                            assert(conflicts@[k] == cs0[k]);
                        } else {
                            assert(conflicts@[k] == c);
                            assert((if k < i { k } else { k + 1 }) == j as int);
                        }
                    }
                }
            }
            j += 1;
        }
        proof {
            assert forall|k: int| 0 <= k < conflicts@.len() implies conflicts_v(conflicts@)[k]
                == conflicts_spec(input@, i as int)[k] by {
                assert(conflicts_v(conflicts@)[k] == conflicts@[k]@);
            }
            assert(conflicts_v(conflicts@) =~= conflicts_spec(input@, i as int));
        }
        let block = GuardBlock {
            gate: input.items[i].gate.clone(),
            body: input.items[i].body,
            conflicts,
        };
        let ghost out0 = out@;
        out.push(block);
        proof {
            assert(input@[i as int] == input.items@[i as int]@);
            assert(block@ == generate_spec(input@)[i as int]);
            assert forall|p: int| 0 <= p < out@.len() implies out@[p]@
                == generate_spec(input@)[p] by {
                if p < out0.len() {
                    assert(out@[p] == out0[p]);
                } else {
                    assert(out@[p] == block);
                }
            }
        }
        i += 1;
    }
    proof {
        assert forall|p: int| 0 <= p < out@.len() implies blocks_v(out@)[p]
            == generate_spec(input@)[p] by {
            assert(blocks_v(out@)[p] == out@[p]@);
        }
        assert(blocks_v(out@) =~= generate_spec(input@));
    }
    out
}

/// Law: the output holds exactly one guard block per input item, in input
/// order; each block carries its item's gate and body unchanged and one
/// diagnostic per other item, so with `N` items there are `N * (N - 1)`
/// diagnostics in all.
pub proof fn lemma_block_order(items: Seq<GatedExprV>)
    ensures
        generate_spec(items).len() == items.len(),
        forall|i: int| #![trigger generate_spec(items)[i]] 0 <= i < items.len()
            ==> generate_spec(items)[i].gate == items[i].gate
                && generate_spec(items)[i].body == items[i].body
                && generate_spec(items)[i].conflicts.len() == items.len() - 1,
{
}

/// Law: conflict completeness — for every two distinct indices `i` and `j`,
/// the block of item `i` carries a diagnostic against item `j`, emitted
/// under gate `j` and carrying the message that names gate `i`, then gate
/// `j`.
pub proof fn lemma_conflict_completeness(items: Seq<GatedExprV>, i: int, j: int)
    requires
        0 <= i < items.len(),
        0 <= j < items.len(),
        i != j,
    ensures
        exists|k: int| 0 <= k < generate_spec(items)[i].conflicts.len()
            && #[trigger] generate_spec(items)[i].conflicts[k] == conflict_at(items, i, j),
{
    let k = if j < i { j } else { j - 1 };
    assert(generate_spec(items)[i].conflicts[k] == conflict_at(items, i, j));
}

/// Law: no self-conflict — when item `i`'s gate label appears at no other
/// index, no diagnostic of block `i` is emitted under its own gate. (With a
/// duplicate label elsewhere in the list, a diagnostic under the same label
/// is against that other occurrence, as conflict completeness asks.)
pub proof fn lemma_no_self_conflict(items: Seq<GatedExprV>, i: int)
    requires
        0 <= i < items.len(),
        forall|j: int| 0 <= j < items.len() && j != i ==> #[trigger] items[j].gate
            != items[i].gate,
    ensures
        forall|k: int| #![trigger generate_spec(items)[i].conflicts[k]]
            0 <= k < generate_spec(items)[i].conflicts.len()
                ==> generate_spec(items)[i].conflicts[k].gate != items[i].gate,
{
    assert forall|k: int| 0 <= k < generate_spec(items)[i].conflicts.len()
        implies #[trigger] generate_spec(items)[i].conflicts[k].gate != items[i].gate by {
        let j = if k < i { k } else { k + 1 };
        assert(generate_spec(items)[i].conflicts[k] == conflict_at(items, i, j));
        assert(items[j].gate != items[i].gate);
    }
}

/// Law: degenerate cases — an empty list generates empty output, and a
/// single item generates exactly one block with no diagnostics.
pub proof fn lemma_degenerate(items: Seq<GatedExprV>)
    ensures
        items.len() == 0 ==> generate_spec(items) == Seq::<GuardBlockV>::empty(),
        items.len() == 1 ==> generate_spec(items).len() == 1
            && generate_spec(items)[0].gate == items[0].gate
            && generate_spec(items)[0].body == items[0].body
            && generate_spec(items)[0].conflicts.len() == 0,
{
    if items.len() == 0 {
        assert(generate_spec(items) =~= Seq::<GuardBlockV>::empty());
    }
}

/// Law: determinism — generation is a pure function of the parsed list, so
/// re-running it on an identical list reproduces the output exactly.
pub proof fn lemma_deterministic(a: ConflictingInput, b: ConflictingInput)
    requires
        a@ == b@,
    ensures
        generate_spec(a@) == generate_spec(b@),
{
}

} // verus!
