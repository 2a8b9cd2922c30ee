use crate::cell::Cell;
use crate::filters::{lemma_filter_none, lemma_filter_push};
use crate::view::{is_silent, is_write, lemma_silent_rule_writes_nothing, write_set};
use crate::world::World;
use vstd::prelude::*;

verus! {

impl World {
    /// Runs `rule` once on every active cell, each with its active
    /// neighbours, and gathers the cells that the rule asks to write, in
    /// the row-major order of the cells it was asked about. The world is
    /// only read.
    pub fn evaluate<F: Fn(Vec<Cell>, Cell) -> Option<Cell>>(&self, rule: F) -> (writes: Vec<Cell>)
        requires
            self.wf(),
            self@.admits(rule),
        ensures
            exists|decisions: Seq<Option<Cell>>| #[trigger]
                self@.generation(rule, decisions) && writes@ == write_set(decisions),
            self@.accepts(writes@),
    {
        let targets = self.get_cells();
        let ghost view = self@;
        let ghost mut decisions: Seq<Option<Cell>> = Seq::empty();
        let mut writes: Vec<Cell> = Vec::new();
        let mut i: usize = 0;
        proof {
            lemma_filter_none(decisions, is_write());
            assert(write_set(decisions) =~= Seq::<Cell>::empty());
        }
        while i < targets.len()
            invariant
                self.wf(),
                view == self@,
                view.admits(rule),
                targets@ == view.live(),
                forall|t: int|
                    0 <= t < targets.len() ==> view.contains(
                        (#[trigger] targets[t]).at.0 as int,
                        targets[t].at.1 as int,
                    ),
                i <= targets.len(),
                decisions.len() == i,
                forall|t: int|
                    0 <= t < i ==> view.decides(rule, view.live()[t], #[trigger] decisions[t]),
                writes@ == write_set(decisions),
                view.accepts(writes@),
            decreases targets.len() - i,
        {
            let target = targets[i];
            let neighbors = self.get_surroundings(target.at);
            assert(view.live().contains(target));
            let ghost asked = neighbors;
            let decision = rule(neighbors, target);
            proof {
                assert(asked@ == view.surroundings(target.at.0 as int, target.at.1 as int)
                    && rule.ensures((asked, target), decision));
                assert(view.decides(rule, target, decision));
                lemma_filter_push(decisions, decision, is_write());
                let grown = decisions.push(decision);
                if decision is Some {
                    assert(write_set(grown) =~= write_set(decisions).push(decision->Some_0));
                }
                decisions = grown;
            }
            match decision {
                Some(cell) => {
                    writes.push(cell);
                },
                None => {},
            }
            i += 1;
        }
        proof {
            assert(view.generation(rule, decisions));
        }
        writes
    }

    /// Writes the cells of `writes` one after the other. Each must lie
    /// inside the grid.
    pub fn commit(&mut self, writes: Vec<Cell>)
        requires
            old(self).wf(),
            old(self)@.accepts(writes@),
        ensures
            final(self).wf(),
            final(self)@ == old(self)@.commit(writes@),
            final(self).dead_pool() == final(self)@.empty_cells(),
    {
        let mut i: usize = 0;
        proof {
            self.lemma_dead_pool_exact();
            assert(writes@.take(0) =~= Seq::<Cell>::empty());
        }
        while i < writes.len()
            invariant
                self.wf(),
                i <= writes.len(),
                old(self)@.accepts(writes@),
                self@.rows == old(self)@.rows,
                self@.cols == old(self)@.cols,
                self@ == old(self)@.commit(writes@.take(i as int)),
                self.dead_pool() == self@.empty_cells(),
            decreases writes.len() - i,
        {
            let cell = writes[i];
            proof {
                assert(writes@.take(i + 1).drop_last() =~= writes@.take(i as int));
                assert(writes@.take(i + 1).last() == cell);
            }
            self.write(cell);
            i += 1;
        }
        proof {
            assert(writes@.take(writes.len() as int) =~= writes@);
        }
    }

    /// Advances the world by one generation: `rule` is asked about every
    /// active cell of the world as it is before the call, and only then
    /// are the cells it answered with written, in the order of the cells
    /// it was asked about. No answer depends on a write of the same
    /// generation, and a rule that never answers with a cell leaves the
    /// world as it was.
    pub fn next<F: Fn(Vec<Cell>, Cell) -> Option<Cell>>(&mut self, rule: F)
        requires
            old(self).wf(),
            old(self)@.admits(rule),
        ensures
            final(self).wf(),
            exists|decisions: Seq<Option<Cell>>| #[trigger]
                old(self)@.generation(rule, decisions) && final(self)@ == old(self)@.commit(
                    write_set(decisions),
                ),
            final(self).dead_pool() == final(self)@.empty_cells(),
            is_silent(rule) ==> final(self)@ == old(self)@ && final(self).dead_pool() == old(
                self,
            ).dead_pool(),
    {
        let writes = self.evaluate(rule);
        proof {
            let decisions = choose|decisions: Seq<Option<Cell>>| #[trigger]
                self@.generation(rule, decisions) && writes@ == write_set(decisions);
            if is_silent(rule) {
                lemma_silent_rule_writes_nothing(self@, rule, decisions);
            }
            self.lemma_dead_pool_exact();
        }
        self.commit(writes);
    }
}

} // verus!
