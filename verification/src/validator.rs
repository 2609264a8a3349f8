//! The validator facade: incremental `check_append` and batch
//! `validate_journal`.
//!
//! Incremental validation runs the four invariant families in order
//! (structural, side effects, control flow, join sets), short-circuits at
//! the first violation leaving the state untouched, and applies the entry on
//! success. Batch validation runs all four families on every entry,
//! collecting at most one violation per family, and always applies the entry
//! so that later entries are checked against a faithful derived state.

use vstd::prelude::*;

use crate::control_flow;
use crate::control_flow::control_flow_result;
use crate::joinsets;
use crate::joinsets::joinsets_result;
use crate::journal::{EntryV, ExecutionJournal, JournalEntry};
use crate::side_effects;
use crate::side_effects::side_effects_result;
use crate::state::{apply_v, init_state, InvariantState, StateV};
use crate::structural;
use crate::structural::structural_result;
use crate::violation::{JournalViolation, ViolationV};

verus! {

use vstd::string::StringExecFns;

/// The verdict of the incremental validator on one candidate entry: the
/// first violation over the four families in order, if any.
pub open spec fn check_result(s: StateV, e: EntryV) -> Option<ViolationV> {
    if structural_result(s, e) is Some {
        structural_result(s, e)
    } else if side_effects_result(s, e) is Some {
        side_effects_result(s, e)
    } else if control_flow_result(s, e) is Some {
        control_flow_result(s, e)
    } else if joinsets_result(s, e) is Some {
        joinsets_result(s, e)
    } else {
        Option::None
    }
}

/// A verdict as a sequence: empty when the entry passed.
pub open spec fn opt_seq(o: Option<ViolationV>) -> Seq<ViolationV> {
    match o {
        Option::Some(v) => seq![v],
        Option::None => Seq::empty(),
    }
}

/// What batch validation collects for one entry: at most one violation per
/// family, all four families always consulted.
pub open spec fn entry_violations(s: StateV, e: EntryV) -> Seq<ViolationV> {
    opt_seq(structural_result(s, e)) + opt_seq(side_effects_result(s, e)) + opt_seq(
        control_flow_result(s, e),
    ) + opt_seq(joinsets_result(s, e))
}

/// What batch validation collects over a whole journal, force-applying every
/// entry.
pub open spec fn batch_violations(s: StateV, entries: Seq<EntryV>) -> Seq<ViolationV>
    decreases entries.len(),
{
    if entries.len() == 0 {
        Seq::empty()
    } else {
        entry_violations(s, entries[0]) + batch_violations(
            apply_v(s, entries[0]),
            entries.drop_first(),
        )
    }
}

impl InvariantState {
    /// Validate and ingest a single journal entry (the incremental path).
    ///
    /// Runs all four invariant families against the current accumulated
    /// state, short-circuiting at the first violation, in which case the
    /// state is left untouched. On success the entry is applied.
    pub fn check_append(&mut self, entry: &JournalEntry) -> (r: Result<(), JournalViolation>)
        requires
            old(self)@.len < usize::MAX,
        ensures
            match r {
                Result::Ok(_) => check_result(old(self)@, entry@) is None && final(self)@
                    == apply_v(old(self)@, entry@),
                Result::Err(v) => Option::Some(v@) == check_result(old(self)@, entry@)
                    && final(self)@ == old(self)@,
            },
    {
        match structural::check(self, entry) {
            Result::Err(v) => {
                return Result::Err(v);
            },
            Result::Ok(_) => {},
        }
        match side_effects::check(self, entry) {
            Result::Err(v) => {
                return Result::Err(v);
            },
            Result::Ok(_) => {},
        }
        match control_flow::check(self, entry) {
            Result::Err(v) => {
                return Result::Err(v);
            },
            Result::Ok(_) => {},
        }
        match joinsets::check(self, entry) {
            Result::Err(v) => {
                return Result::Err(v);
            },
            Result::Ok(_) => {},
        }
        self.apply_entry(entry);
        Result::Ok(())
    }

    /// Run all four families, collecting up to one violation per family.
    ///
    /// Unlike `check_append`, this does not short-circuit across families:
    /// all four run regardless of earlier failures, so a single pass over a
    /// corrupt journal surfaces multiple independent issues.
    fn collect_entry_violations(&self, entry: &JournalEntry, violations: &mut Vec<JournalViolation>)
        ensures
            final(violations).deep_view() == old(violations).deep_view() + entry_violations(
                self@,
                entry@,
            ),
    {
        let ghost before = violations.deep_view();
        match structural::check(self, entry) {
            Result::Err(v) => {
                violations.push(v);
            },
            Result::Ok(_) => {},
        }
        match side_effects::check(self, entry) {
            Result::Err(v) => {
                violations.push(v);
            },
            Result::Ok(_) => {},
        }
        match control_flow::check(self, entry) {
            Result::Err(v) => {
                violations.push(v);
            },
            Result::Ok(_) => {},
        }
        match joinsets::check(self, entry) {
            Result::Err(v) => {
                violations.push(v);
            },
            Result::Ok(_) => {},
        }
        proof {
            assert(violations.deep_view() =~= before + entry_violations(self@, entry@));
        }
    }
}

/// Batch-validate an entire journal, returning all detected violations.
///
/// Feeds every entry of the journal through the four families against a
/// fresh state, collecting at most one violation per family per entry, and
/// always applies the entry so that downstream entries are checked against a
/// faithful accumulated state. An empty journal yields a single
/// `MissingExecutionStarted` with the placeholder event name `<empty>`.
#[verifier::loop_isolation(false)]
pub fn validate_journal(journal: &ExecutionJournal) -> (r: Vec<JournalViolation>)
    ensures
        journal.entries@.len() == 0 ==> r.deep_view() == seq![
            ViolationV::MissingExecutionStarted { first_event: "<empty>"@ },
        ],
        journal.entries@.len() > 0 ==> r.deep_view() == batch_violations(
            init_state(),
            journal.entries.deep_view(),
        ),
{
    if journal.entries.len() == 0 {
        let mut r: Vec<JournalViolation> = Vec::new();
        r.push(
            JournalViolation::MissingExecutionStarted { first_event: "<empty>".to_owned() },
        );
        proof {
            assert(r.deep_view() =~= seq![
                ViolationV::MissingExecutionStarted { first_event: "<empty>"@ },
            ]);
        }
        return r;
    }

    let ghost all = journal.entries.deep_view();
    let mut state = InvariantState::new();
    let mut violations: Vec<JournalViolation> = Vec::new();

    let mut i: usize = 0;
    proof {
        assert(all.skip(0) =~= all);
        assert(violations.deep_view() =~= Seq::<ViolationV>::empty());
        assert(violations.deep_view() + batch_violations(state@, all) =~= batch_violations(
            init_state(),
            all,
        ));
    }
    while i < journal.entries.len()
        invariant
            i <= journal.entries.len(),
            state@.len == i,
            violations.deep_view() + batch_violations(state@, all.skip(i as int))
                == batch_violations(init_state(), all),
        decreases journal.entries.len() - i,
    {
        let entry = &journal.entries[i];
        let ghost suffix = all.skip(i as int);
        proof {
            assert(suffix[0] == entry@);
            assert(suffix.drop_first() =~= all.skip(i as int + 1));
        }
        state.collect_entry_violations(entry, &mut violations);
        state.apply_entry(entry);
        proof {
            assert(violations.deep_view() + batch_violations(state@, all.skip(i as int + 1))
                =~= batch_violations(init_state(), all));
        }
        i = i + 1;
    }
    proof {
        assert(all.skip(journal.entries@.len() as int) =~= Seq::<EntryV>::empty());
        assert(violations.deep_view() =~= batch_violations(init_state(), all));
    }
    violations
}

} // verus!
