//! Choosing which disclosures of a credential to reveal.
//!
//! The caller shows the candidates with the current marks, reads a line, and
//! hands it to `handle_input` until it answers `Commit`.

use vstd::prelude::*;
use crate::text::{parse_usize_plus, parse_usize_plus_text, same_text, trim, trimmed};

verus! {

/// Why a line of input was refused.
#[derive(Clone, Copy, Debug, PartialEq, Eq, Structural)]
pub enum ToggleError {
    /// A number that names no candidate.
    InvalidNumber,
    /// Neither a number nor `ok`.
    NotANumber,
}

/// What a line of input did.
#[derive(Clone, Copy, Debug, PartialEq, Eq, Structural)]
pub enum ToggleAction {
    /// The 0-based candidate whose mark was flipped.
    Toggled(usize),
    /// `ok`: the choice is final.
    Commit,
    Rejected(ToggleError),
}

/// The abstract state: the candidates and the 0-based indices marked.
pub struct ToggleView {
    pub candidates: Seq<String>,
    pub selected: Set<int>,
}

/// `sel` with the membership of `i` flipped.
pub open spec fn toggled(sel: Set<int>, i: int) -> Set<int> {
    if sel.contains(i) {
        sel.remove(i)
    } else {
        sel.insert(i)
    }
}

/// The candidates among the first `n` whose index is in `sel`, in the order
/// in which the candidates were given.
pub open spec fn chosen(c: Seq<String>, sel: Set<int>, n: nat) -> Seq<String>
    decreases n,
{
    if n == 0 {
        Seq::empty()
    } else if sel.contains(n - 1) {
        chosen(c, sel, (n - 1) as nat).push(c[n - 1])
    } else {
        chosen(c, sel, (n - 1) as nat)
    }
}

/// The marked candidates, in the order in which they were given.
pub open spec fn committed_values(v: ToggleView) -> Seq<String> {
    chosen(v.candidates, v.selected, v.candidates.len())
}

/// The next state and the action for the trimmed input `t`.
pub open spec fn toggle_outcome(v: ToggleView, t: Seq<char>) -> (ToggleView, ToggleAction) {
    if t == seq!['o', 'k'] {
        (v, ToggleAction::Commit)
    } else {
        let n = parse_usize_plus(t);
        if n is None {
            (v, ToggleAction::Rejected(ToggleError::NotANumber))
        } else if 1 <= n->Some_0 <= v.candidates.len() {
            let i = n->Some_0 - 1;
            (
                ToggleView { candidates: v.candidates, selected: toggled(v.selected, i) },
                ToggleAction::Toggled(i as usize),
            )
        } else {
            (v, ToggleAction::Rejected(ToggleError::InvalidNumber))
        }
    }
}

/// A multi-select over candidate disclosures; nothing is marked at first.
pub struct DisclosureToggleSet {
    candidates: Vec<String>,
    marks: Vec<bool>,
}

impl View for DisclosureToggleSet {
    type V = ToggleView;

    closed spec fn view(&self) -> ToggleView {
        ToggleView {
            candidates: self.candidates@,
            selected: Set::new(|i: int| 0 <= i < self.marks@.len() && self.marks@[i]),
        }
    }
}

impl DisclosureToggleSet {
    /// The set's internal invariant.
    pub closed spec fn wf(&self) -> bool {
        self.marks@.len() == self.candidates@.len()
    }

    /// A toggle set over `candidates` with nothing marked.
    pub fn new(candidates: Vec<String>) -> (s: DisclosureToggleSet)
        ensures
            s.wf(),
            s@.candidates == candidates@,
            s@.selected == Set::<int>::empty(),
    {
        let n = candidates.len();
        let mut marks: Vec<bool> = Vec::new();
        let mut i: usize = 0;
        while i < n
            invariant
                i <= n,
                marks@.len() == i,
                forall|k: int| 0 <= k < i ==> !(#[trigger] marks@[k]),
            decreases n - i,
        {
            marks.push(false);
            i = i + 1;
        }
        let s = DisclosureToggleSet { candidates, marks };
        assert(s@.selected =~= Set::<int>::empty());
        s
    }

    /// The number of candidates.
    pub fn len(&self) -> (r: usize)
        ensures
            r == self@.candidates.len(),
    {
        self.candidates.len()
    }

    /// Whether the 0-based candidate `i` is marked.
    pub fn is_selected(&self, i: usize) -> (r: bool)
        requires
            self.wf(),
            i < self@.candidates.len(),
        ensures
            r == self@.selected.contains(i as int),
    {
        self.marks[i]
    }

    /// Flips the mark of the 0-based candidate `i`.
    pub fn toggle(&mut self, i: usize)
        requires
            old(self).wf(),
            i < old(self)@.candidates.len(),
        ensures
            final(self).wf(),
            final(self)@.candidates == old(self)@.candidates,
            final(self)@.selected == toggled(old(self)@.selected, i as int),
    {
        let m = self.marks[i];
        self.marks.set(i, !m);
        assert(self@.selected =~= toggled(old(self)@.selected, i as int));
    }

    /// The marked 0-based indices in ascending order.
    pub fn selected_indices(&self) -> (r: Vec<usize>)
        requires
            self.wf(),
        ensures
            forall|k: int| 0 <= k < r@.len() ==> self@.selected.contains(#[trigger] r@[k] as int),
            forall|i: int| #[trigger] self@.selected.contains(i) ==> r@.contains(i as usize),
            forall|a: int, b: int| 0 <= a < b < r@.len() ==> r@[a] < r@[b],
    {
        let n = self.marks.len();
        let mut r: Vec<usize> = Vec::new();
        let mut i: usize = 0;
        while i < n
            invariant
                n == self.marks@.len(),
                i <= n,
                forall|k: int| 0 <= k < r@.len() ==> (#[trigger] r@[k] as int) < i && self.marks@[r@[k] as int],
                forall|j: int| 0 <= j < i && self.marks@[j] ==> r@.contains(j as usize),
                forall|a: int, b: int| 0 <= a < b < r@.len() ==> r@[a] < r@[b],
            decreases n - i,
        {
            let ghost before = r@;
            if self.marks[i] {
                r.push(i);
                assert(r@[r@.len() - 1] == i);
                assert forall|j: int| 0 <= j < i && self.marks@[j] implies r@.contains(j as usize) by {
                    let w = choose|w: int| 0 <= w < before.len() && before[w] == j as usize;
                    assert(r@[w] == j as usize);
                }
            }
            i = i + 1;
        }
        r
    }

    /// The marked candidates, in the order in which they were given (not
    /// the order in which they were marked).
    pub fn committed(&self) -> (r: Vec<String>)
        requires
            self.wf(),
        ensures
            r@ == committed_values(self@),
    {
        let n = self.candidates.len();
        let mut r: Vec<String> = Vec::new();
        let mut i: usize = 0;
        while i < n
            invariant
                n == self.candidates@.len(),
                self.wf(),
                i <= n,
                r@ == chosen(self@.candidates, self@.selected, i as nat),
            decreases n - i,
        {
            if self.marks[i] {
                r.push(self.candidates[i].clone());
            }
            i = i + 1;
        }
        r
    }

    /// Applies one line of input: a 1-based number (optionally written with
    /// a leading `+`) flips that candidate's mark, `ok` commits.
    pub fn handle_input(&mut self, line: &str) -> (r: ToggleAction)
        requires
            old(self).wf(),
        ensures
            final(self).wf(),
            (final(self)@, r) == toggle_outcome(old(self)@, trimmed(line@)),
    {
        let t = trim(line);
        proof {
            reveal_strlit("ok");
            assert("ok"@ =~= seq!['o', 'k']);
        }
        if same_text(t, "ok") {
            return ToggleAction::Commit;
        }
        match parse_usize_plus_text(t) {
            None => ToggleAction::Rejected(ToggleError::NotANumber),
            Some(n) => {
                if 1 <= n && n <= self.candidates.len() {
                    self.toggle(n - 1);
                    ToggleAction::Toggled(n - 1)
                } else {
                    ToggleAction::Rejected(ToggleError::InvalidNumber)
                }
            },
        }
    }
}

/// Toggling the same candidate twice restores the marks it started from.
pub proof fn lemma_toggle_twice(sel: Set<int>, i: int)
    ensures
        toggled(toggled(sel, i), i) == sel,
{
    assert(toggled(toggled(sel, i), i) =~= sel);
}

/// The marks depend only on which candidates were toggled, not on the order.
pub proof fn lemma_toggle_order_irrelevant(sel: Set<int>, i: int, j: int)
    ensures
        toggled(toggled(sel, i), j) == toggled(toggled(sel, j), i),
{
    assert(toggled(toggled(sel, i), j) =~= toggled(toggled(sel, j), i));
}

} // verus!
