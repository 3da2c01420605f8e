//! Batch selection of entries, batch actions and the batch dialog.
use vstd::prelude::*;
use std::collections::HashSet;
use crate::DirEntry;
use crate::pathname::{file_name, file_name_of, join, join_paths};
use vstd::std_specs::hash::spec_hash_keys_iter;
use vstd::std_specs::iter::IteratorSpec;
use crate::text::{clear_string, opt_chars, pop_char, push_char};

verus! {

broadcast use vstd::std_specs::hash::group_hash_axioms;

/// Manages batch file selections: the indices of the selected entries, and
/// whether a selection is active.
#[derive(Debug)]
pub struct BatchSelection {
    pub selected_indices: HashSet<usize>,
    pub active: bool,
}

/// The selection with `index` flipped: removed if it was selected, added if not.
pub open spec fn toggled(s: Set<usize>, index: usize) -> Set<usize> {
    if s.contains(index) {
        s.remove(index)
    } else {
        s.insert(index)
    }
}

/// Toggling the same index twice gives back the selection it started from.
pub proof fn law_toggle_twice(s: Set<usize>, index: usize)
    ensures
        toggled(toggled(s, index), index) == s,
{
    assert(toggled(toggled(s, index), index) =~= s);
}

impl BatchSelection {
    /// A selection is consistent when it is active exactly when something is selected.
    pub open spec fn consistent(&self) -> bool {
        self.active == !self.selected_indices@.is_empty()
    }

    pub fn new() -> (s: Self)
        ensures
            s.selected_indices@ == Set::<usize>::empty(),
            !s.active,
            s.consistent(),
    {
        BatchSelection { selected_indices: HashSet::new(), active: false }
    }

    /// Selects `index` if it was not selected, deselects it otherwise; the
    /// selection is active afterwards exactly when something is selected.
    pub fn toggle(&mut self, index: usize)
        ensures
            final(self).selected_indices@ == toggled(old(self).selected_indices@, index),
            final(self).active == !final(self).selected_indices@.is_empty(),
            final(self).consistent(),
    {
        if self.selected_indices.contains(&index) {
            self.selected_indices.remove(&index);
        } else {
            self.selected_indices.insert(index);
        }
        if !self.selected_indices.is_empty() {
            self.active = true;
        } else {
            self.active = false;
        }
    }

    pub fn is_selected(&self, index: usize) -> (r: bool)
        ensures
            r == self.selected_indices@.contains(index),
    {
        self.selected_indices.contains(&index)
    }

    pub fn clear(&mut self)
        ensures
            final(self).selected_indices@ == Set::<usize>::empty(),
            !final(self).active,
            final(self).consistent(),
    {
        self.selected_indices.clear();
        self.active = false;
    }

    pub fn count(&self) -> (r: usize)
        ensures
            r == self.selected_indices@.len(),
    {
        self.selected_indices.len()
    }

    /// The selected entries, in the order in which the set hands out its indices
    /// (an order that is not specified); indices past the end are skipped.
    pub fn get_selected_entries<'a>(&self, entries: &'a [DirEntry]) -> (r: Vec<&'a DirEntry>)
        ensures
            exists|order: Seq<usize>|
                {
                    &&& order.no_duplicates()
                    &&& order.to_set() == self.selected_indices@
                    &&& r@ == order.filter(|i: usize| i < entries@.len()).map_values(
                        |i: usize| &entries@[i as int],
                    )
                },
    {
        let mut out: Vec<&'a DirEntry> = Vec::new();
        let ghost len = entries@.len();
        let ghost set_items = spec_hash_keys_iter(&self.selected_indices).remaining();
        for idx in it: self.selected_indices.iter()
            invariant
                len == entries@.len(),
                it.seq() == set_items,
                it.index() == set_items.len() ==> set_items.take(it.index() as int) == set_items,
                out@ == it.seq().take(it.index() as int).map_values(|p: &usize| *p).filter(
                    |i: usize| i < len,
                ).map_values(|i: usize| &entries@[i as int]),
            ensures
                out@ == set_items.map_values(|p: &usize| *p).filter(|i: usize| i < len).map_values(
                    |i: usize| &entries@[i as int],
                ),
        {
            let ghost k = it.index() as int;
            proof {
                reveal(Seq::filter);
                let prefix = it.seq().take(k + 1).map_values(|p: &usize| *p);
                assert(prefix.drop_last() =~= it.seq().take(k).map_values(|p: &usize| *p));
                assert(prefix.last() == *idx);
                assert(k + 1 == it.seq().len() ==> it.seq().take(k + 1) =~= it.seq());
            }
            let ghost before = out@;
            if *idx < entries.len() {
                out.push(&entries[*idx]);
                assert(out@ =~= before.push(&entries@[*idx as int]));
            }
        }
        proof {
            assert(set_items.map_values(|p: &usize| *p) =~= set_items.unref());
        }
        out
    }
}

/// Batch operations that can be applied to selected files.
#[derive(Debug, Clone)]
pub enum BatchAction {
    Delete,
    Copy { dest: String },
    Move { dest: String },
}

/// How many operations succeeded and how many failed.
pub open spec fn outcome_counts(outcomes: Seq<bool>) -> (nat, nat)
    decreases outcomes.len(),
{
    if outcomes.len() == 0 {
        (0, 0)
    } else {
        let (s, f) = outcome_counts(outcomes.drop_last());
        if outcomes.last() {
            (s + 1, f)
        } else {
            (s, f + 1)
        }
    }
}

proof fn lemma_outcome_counts_sum(outcomes: Seq<bool>)
    ensures
        outcome_counts(outcomes).0 + outcome_counts(outcomes).1 == outcomes.len(),
    decreases outcomes.len(),
{
    if outcomes.len() > 0 {
        lemma_outcome_counts_sum(outcomes.drop_last());
    }
}

/// Counts the successes and failures among per-item outcomes (`true` for success).
pub fn count_outcomes(outcomes: &Vec<bool>) -> (r: (usize, usize))
    ensures
        r.0 as nat == outcome_counts(outcomes@).0,
        r.1 as nat == outcome_counts(outcomes@).1,
        r.0 + r.1 == outcomes@.len(),
{
    let mut success: usize = 0;
    let mut failed: usize = 0;
    let mut i: usize = 0;
    while i < outcomes.len()
        invariant
            i <= outcomes.len(),
            (success as nat, failed as nat) == outcome_counts(outcomes@.subrange(0, i as int)),
            success + failed == i,
        decreases outcomes.len() - i,
    {
        assert(outcomes@.subrange(0, i + 1).drop_last() =~= outcomes@.subrange(0, i as int));
        if outcomes[i] {
            success = success + 1;
        } else {
            failed = failed + 1;
        }
        i = i + 1;
    }
    assert(outcomes@.subrange(0, outcomes.len() as int) =~= outcomes@);
    (success, failed)
}

/// Where an entry goes when copied or moved into `dest_dir`: the directory joined
/// with the entry's file name; `None` when the source path has no file name.
pub fn entry_destination(src: &str, dest_dir: &str) -> (r: Option<String>)
    ensures
        opt_chars(r) == match file_name_of(src@) {
            Some(n) => Some(join_paths(dest_dir@, n)),
            None => None,
        },
{
    match file_name(src) {
        Some(n) => Some(join(dest_dir, n.as_str())),
        None => None,
    }
}

/// The kind of batch action a dialog is asking about.
#[derive(Debug, Clone, Copy, PartialEq, Eq, Structural)]
pub enum BatchActionType {
    Delete,
    Copy,
    Move,
}

/// Batch action dialog state.
#[derive(Debug, Clone)]
pub struct BatchDialog {
    pub visible: bool,
    pub action: Option<BatchActionType>,
    pub input: String,
}

impl BatchDialog {
    pub fn new() -> (d: Self)
        ensures
            !d.visible,
            d.action is None,
            d.input@.len() == 0,
    {
        BatchDialog { visible: false, action: None, input: String::new() }
    }

    pub fn open(&mut self, action: BatchActionType)
        ensures
            final(self).visible,
            final(self).action == Some(action),
            final(self).input@.len() == 0,
    {
        self.visible = true;
        self.action = Some(action);
        clear_string(&mut self.input);
    }

    pub fn close(&mut self)
        ensures
            !final(self).visible,
            final(self).action is None,
            final(self).input@.len() == 0,
    {
        self.visible = false;
        self.action = None;
        clear_string(&mut self.input);
    }

    pub fn push_char(&mut self, c: char)
        ensures
            final(self).visible == old(self).visible,
            final(self).action == old(self).action,
            final(self).input@ == old(self).input@.push(c),
    {
        push_char(&mut self.input, c);
    }

    pub fn pop_char(&mut self)
        ensures
            final(self).visible == old(self).visible,
            final(self).action == old(self).action,
            final(self).input@ == if old(self).input@.len() > 0 {
                old(self).input@.drop_last()
            } else {
                old(self).input@
            },
    {
        pop_char(&mut self.input);
    }

    /// The dialog's title for its action.
    pub fn action_name(&self) -> (r: &'static str)
        ensures
            r@ == match self.action {
                Some(BatchActionType::Delete) => "Delete"@,
                Some(BatchActionType::Copy) => "Copy to"@,
                Some(BatchActionType::Move) => "Move to"@,
                None => ""@,
            },
    {
        match self.action {
            Some(BatchActionType::Delete) => "Delete",
            Some(BatchActionType::Copy) => "Copy to",
            Some(BatchActionType::Move) => "Move to",
            None => "",
        }
    }
}

} // verus!
