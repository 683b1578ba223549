//! Expression-editor draft state and candidate previews.
//!
//! Widgets are transient views over these state machines; reconciliation stays
//! predictable when authoritative state changes because of a remote client,
//! undo and redo, or queue replay.

use crate::text::same_text;
use vstd::prelude::*;

verus! {

/// A value a draft can hold: it can be copied and compared, and what is compared
/// is its content.
pub trait Draftable: Sized {
    /// What two equal values have in common.
    type Content;

    spec fn content(&self) -> Self::Content;

    fn duplicate(&self) -> (copy: Self)
        ensures
            copy.content() == self.content(),
    ;

    fn agrees(&self, other: &Self) -> (r: bool)
        ensures
            r == (self.content() == other.content()),
    ;
}

impl Draftable for String {
    type Content = Seq<char>;

    open spec fn content(&self) -> Seq<char> {
        self@
    }

    fn duplicate(&self) -> (copy: Self) {
        self.clone()
    }

    fn agrees(&self, other: &Self) -> (r: bool) {
        same_text(self.as_str(), other.as_str())
    }
}

/// Whether an edit has been handed to the authority but not acknowledged yet.
#[derive(Clone, Copy, Debug, PartialEq, Eq, Structural)]
pub enum SubmissionState {
    Idle,
    Submitted,
}

/// A local edit of an authoritative value: the last value the authority was
/// seen to hold, and the edited one.
#[derive(Debug)]
pub struct AuthorityDraft<T> {
    baseline: T,
    graph_hash: String,
    edited: T,
    submission: SubmissionState,
    authority_changed: bool,
}

/// What a draft holds.
pub ghost struct DraftState<C> {
    pub baseline: C,
    pub graph_hash: Seq<char>,
    pub edited: C,
    pub submission: SubmissionState,
    pub authority_changed: bool,
}

impl<C> DraftState<C> {
    /// A draft without an edit.
    pub open spec fn fresh(authoritative: C, graph_hash: Seq<char>) -> Self {
        DraftState {
            baseline: authoritative,
            graph_hash,
            edited: authoritative,
            submission: SubmissionState::Idle,
            authority_changed: false,
        }
    }

    pub open spec fn dirty(self) -> bool {
        self.edited != self.baseline
    }

    /// Incorporate a newly observed accepted value: a draft that has no edit of
    /// its own, or that the authority has come to agree with, follows it; a
    /// draft with another edit keeps the edit and restores the newest value when
    /// it is reset.
    pub open spec fn reconciled(self, authoritative: C, graph_hash: Seq<char>) -> Self {
        if authoritative == self.edited || !self.dirty() {
            Self::fresh(authoritative, graph_hash)
        } else if authoritative != self.baseline || graph_hash != self.graph_hash {
            DraftState {
                baseline: authoritative,
                graph_hash,
                edited: self.edited,
                submission: SubmissionState::Idle,
                authority_changed: true,
            }
        } else {
            self
        }
    }

    pub open spec fn submitted(self) -> Self {
        DraftState { submission: SubmissionState::Submitted, ..self }
    }

    pub open spec fn reset(self) -> Self {
        DraftState {
            edited: self.baseline,
            submission: SubmissionState::Idle,
            authority_changed: false,
            ..self
        }
    }

    /// The draft with another edit.
    pub open spec fn with_edit(self, edited: C) -> Self {
        DraftState { edited, ..self }
    }
}

impl<T: Draftable> AuthorityDraft<T> {
    pub closed spec fn state(&self) -> DraftState<T::Content> {
        DraftState {
            baseline: self.baseline.content(),
            graph_hash: self.graph_hash@,
            edited: self.edited.content(),
            submission: self.submission,
            authority_changed: self.authority_changed,
        }
    }

    pub fn new(authoritative: T, graph_hash: &str) -> (draft: Self)
        ensures
            draft.state() == DraftState::fresh(authoritative.content(), graph_hash@),
    {
        AuthorityDraft {
            baseline: authoritative.duplicate(),
            graph_hash: graph_hash.to_owned(),
            edited: authoritative,
            submission: SubmissionState::Idle,
            authority_changed: false,
        }
    }

    /// The edited value.
    pub fn edited(&self) -> (value: &T)
        ensures
            value.content() == self.state().edited,
    {
        &self.edited
    }

    /// The edited value, to be changed in place.
    pub fn edited_mut(&mut self) -> (value: &mut T)
        ensures
            value.content() == old(self).state().edited,
            final(self).state() == old(self).state().with_edit(final(value).content()),
    {
        &mut self.edited
    }

    /// Whether the edited value differs from the last one the authority held.
    pub fn dirty(&self) -> (b: bool)
        ensures
            b == self.state().dirty(),
    {
        !self.edited.agrees(&self.baseline)
    }

    pub fn submission(&self) -> (state: SubmissionState)
        ensures
            state == self.state().submission,
    {
        self.submission
    }

    /// Whether the authority moved on under a kept edit.
    pub fn authority_changed(&self) -> (b: bool)
        ensures
            b == self.state().authority_changed,
    {
        self.authority_changed
    }

    /// Incorporate a newly observed accepted value.
    pub fn reconcile(&mut self, authoritative: T, graph_hash: &str)
        ensures
            final(self).state() == old(self).state().reconciled(authoritative.content(), graph_hash@),
    {
        if authoritative.agrees(&self.edited) || !self.dirty() {
            self.baseline = authoritative.duplicate();
            self.edited = authoritative;
            self.graph_hash = graph_hash.to_owned();
            self.submission = SubmissionState::Idle;
            self.authority_changed = false;
        } else if !authoritative.agrees(&self.baseline) || !same_text(
            graph_hash,
            self.graph_hash.as_str(),
        ) {
            self.baseline = authoritative;
            self.graph_hash = graph_hash.to_owned();
            self.submission = SubmissionState::Idle;
            self.authority_changed = true;
        }
    }

    pub fn mark_submitted(&mut self)
        ensures
            final(self).state() == old(self).state().submitted(),
    {
        self.submission = SubmissionState::Submitted;
    }

    /// Give up the edit.
    pub fn reset(&mut self)
        ensures
            final(self).state() == old(self).state().reset(),
    {
        self.edited = self.baseline.duplicate();
        self.submission = SubmissionState::Idle;
        self.authority_changed = false;
    }
}

/// A draft without an edit follows the authority, whatever it comes to hold.
pub proof fn clean_drafts_follow_the_authority<C>(draft: DraftState<C>, value: C, hash: Seq<char>)
    requires
        !draft.dirty(),
    ensures
        draft.reconciled(value, hash) == DraftState::fresh(value, hash),
        !draft.reconciled(value, hash).dirty(),
{
}

/// An edit survives any other value of the authority, and resetting the draft
/// then restores that newest value.
pub proof fn edits_survive_and_reset_to_the_newest_value<C>(
    draft: DraftState<C>,
    value: C,
    hash: Seq<char>,
)
    requires
        draft.dirty(),
        value != draft.edited,
    ensures
        draft.reconciled(value, hash).edited == draft.edited,
        draft.reconciled(value, hash).dirty(),
        draft.reconciled(value, hash).reset().edited == value,
        !draft.reconciled(value, hash).reset().dirty(),
{
}

/// The authority reporting exactly the edited value acknowledges it.
pub proof fn agreement_acknowledges_an_edit<C>(draft: DraftState<C>, hash: Seq<char>)
    ensures
        draft.reconciled(draft.edited, hash) == DraftState::fresh(draft.edited, hash),
        draft.submitted().reconciled(draft.edited, hash).submission is Idle,
{
}

/// Observing the same value again changes nothing, so a pending submission
/// stays pending until the authority moves.
pub proof fn reconciling_is_idempotent<C>(draft: DraftState<C>, value: C, hash: Seq<char>)
    ensures
        draft.reconciled(value, hash).reconciled(value, hash) == draft.reconciled(value, hash),
        draft.dirty() ==> draft.submitted().reconciled(draft.baseline, draft.graph_hash)
            == draft.submitted(),
{
}

/// A draft is dirty exactly where it differs from the accepted value. Editing it changes the
/// edit alone, submitting it keeps the edit, and resetting it restores the accepted value
/// and clears every mark.
pub proof fn a_draft_holds_one_edit<C>(draft: DraftState<C>, edited: C, value: C, hash: Seq<char>)
    ensures
        draft.dirty() <==> draft.edited != draft.baseline,
        draft.with_edit(edited).edited == edited,
        draft.with_edit(edited).baseline == draft.baseline,
        draft.with_edit(edited).submission == draft.submission,
        draft.with_edit(edited).graph_hash == draft.graph_hash,
        draft.submitted().edited == draft.edited,
        draft.submitted().baseline == draft.baseline,
        draft.submitted().submission is Submitted,
        draft.submitted().authority_changed == draft.authority_changed,
        draft.reset().edited == draft.baseline,
        draft.reset().baseline == draft.baseline,
        draft.reset().submission is Idle,
        !draft.reset().authority_changed,
        DraftState::fresh(value, hash).edited == value,
        DraftState::fresh(value, hash).baseline == value,
        DraftState::fresh(value, hash).graph_hash == hash,
        DraftState::fresh(value, hash).submission is Idle,
        !DraftState::fresh(value, hash).authority_changed,
{
}

/// The authority moving on under a kept edit is noted, takes the place of the accepted value
/// and calls back a pending submission.
pub proof fn a_moving_authority_is_noted<C>(draft: DraftState<C>, value: C, hash: Seq<char>)
    requires
        draft.edited != draft.baseline,
        value != draft.edited,
        value != draft.baseline || hash != draft.graph_hash,
    ensures
        draft.reconciled(value, hash).authority_changed,
        draft.reconciled(value, hash).baseline == value,
        draft.reconciled(value, hash).graph_hash == hash,
        draft.reconciled(value, hash).submission is Idle,
        draft.reconciled(value, hash).edited == draft.edited,
{
}

} // verus!
