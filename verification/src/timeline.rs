//! Feed definitions and the state kept for each feed that is open.

use crate::keys::Pubkey;
use vstd::prelude::*;
use vstd::std_specs::cmp::PartialEqSpecImpl;

verus! {

/// What a feed shows. Two definitions with the same variant and the same
/// parameters are the same feed.
#[derive(Debug, Eq, Hash)]
pub enum TimelineKind {
    /// Every note that the relays hand out.
    Universe,
    /// The notes that mention one user.
    Notifications(Pubkey),
    /// The notes of one user.
    Profile(Pubkey),
    /// The notes that carry a hashtag.
    Hashtag(String),
    /// The notes that match a search term.
    Search(String),
    /// A feed that is known by a number only.
    Generic(u64),
}

/// The mathematical value of a [`TimelineKind`]: keys and strings by what
/// they hold.
pub enum FeedId {
    Universe,
    Notifications(Seq<u8>),
    Profile(Seq<u8>),
    Hashtag(Seq<char>),
    Search(Seq<char>),
    Generic(u64),
}

impl View for TimelineKind {
    type V = FeedId;

    open spec fn view(&self) -> FeedId {
        match *self {
            TimelineKind::Universe => FeedId::Universe,
            TimelineKind::Notifications(pk) => FeedId::Notifications(pk@),
            TimelineKind::Profile(pk) => FeedId::Profile(pk@),
            TimelineKind::Hashtag(tag) => FeedId::Hashtag(tag@),
            TimelineKind::Search(term) => FeedId::Search(term@),
            TimelineKind::Generic(id) => FeedId::Generic(id),
        }
    }
}

impl Clone for TimelineKind {
    fn clone(&self) -> (copy: Self)
        ensures
            copy == *self,
    {
        match self {
            TimelineKind::Universe => TimelineKind::Universe,
            TimelineKind::Notifications(pk) => TimelineKind::Notifications(*pk),
            TimelineKind::Profile(pk) => TimelineKind::Profile(*pk),
            TimelineKind::Hashtag(tag) => TimelineKind::Hashtag(tag.clone()),
            TimelineKind::Search(term) => TimelineKind::Search(term.clone()),
            TimelineKind::Generic(id) => TimelineKind::Generic(*id),
        }
    }
}

impl PartialEq for TimelineKind {
    fn eq(&self, other: &Self) -> (same: bool) {
        match (self, other) {
            (TimelineKind::Universe, TimelineKind::Universe) => true,
            (TimelineKind::Notifications(a), TimelineKind::Notifications(b)) => *a == *b,
            (TimelineKind::Profile(a), TimelineKind::Profile(b)) => *a == *b,
            (TimelineKind::Hashtag(a), TimelineKind::Hashtag(b)) => *a == *b,
            (TimelineKind::Search(a), TimelineKind::Search(b)) => *a == *b,
            (TimelineKind::Generic(a), TimelineKind::Generic(b)) => *a == *b,
            _ => false,
        }
    }
}

impl PartialEqSpecImpl for TimelineKind {
    open spec fn obeys_eq_spec() -> bool {
        true
    }

    open spec fn eq_spec(&self, other: &Self) -> bool {
        self@ == other@
    }
}

/// A note in the local store: where it lies and when it was written.
#[derive(Clone, Copy, Debug, PartialEq, Eq, Structural)]
pub struct NoteRef {
    pub key: u64,
    pub created_at: u64,
}

/// The state of one open feed: what it shows, the subscription that feeds
/// it, the notes found so far and the number of columns that show it.
#[derive(Debug)]
pub struct Timeline {
    kind: TimelineKind,
    subscription: Option<u64>,
    notes: Vec<NoteRef>,
    subscribers: usize,
}

/// The mathematical value of a [`Timeline`].
pub struct FeedState {
    pub kind: FeedId,
    pub subscription: Option<u64>,
    pub notes: Seq<NoteRef>,
    pub subscribers: nat,
}

impl View for Timeline {
    type V = FeedState;

    closed spec fn view(&self) -> FeedState {
        FeedState {
            kind: self.kind@,
            subscription: self.subscription,
            notes: self.notes@,
            subscribers: self.subscribers as nat,
        }
    }
}

impl Timeline {
    /// A feed state that no column shows yet and that has no subscription.
    pub fn new(kind: TimelineKind, notes: Vec<NoteRef>) -> (timeline: Self)
        ensures
            timeline@ == (FeedState {
                kind: kind@,
                subscription: None,
                notes: notes@,
                subscribers: 0,
            }),
            timeline.spec_kind() == kind,
    {
        Timeline { kind, subscription: None, notes, subscribers: 0 }
    }

    /// The definition itself, of which `self@.kind` is the value.
    pub closed spec fn spec_kind(&self) -> TimelineKind {
        self.kind
    }

    pub proof fn lemma_kind(&self)
        ensures
            self.spec_kind()@ == self@.kind,
            self@.subscribers <= usize::MAX,
    {
    }

    pub fn kind(&self) -> (kind: &TimelineKind)
        ensures
            *kind == self.spec_kind(),
            kind@ == self@.kind,
    {
        &self.kind
    }

    pub fn subscription(&self) -> (handle: Option<u64>)
        ensures
            handle == self@.subscription,
    {
        self.subscription
    }

    pub fn notes(&self) -> (notes: &Vec<NoteRef>)
        ensures
            notes@ == self@.notes,
    {
        &self.notes
    }

    pub fn subscribers(&self) -> (count: usize)
        ensures
            count == self@.subscribers,
    {
        self.subscribers
    }

    /// One more column shows the feed.
    pub(crate) fn add_subscriber(&mut self)
        requires
            old(self)@.subscribers < usize::MAX,
        ensures
            final(self)@ == (FeedState {
                subscribers: old(self)@.subscribers + 1,
                ..old(self)@
            }),
            final(self).spec_kind() == old(self).spec_kind(),
    {
        self.subscribers = self.subscribers + 1;
    }

    /// One column less shows the feed.
    pub(crate) fn remove_subscriber(&mut self)
        requires
            old(self)@.subscribers > 0,
        ensures
            final(self)@ == (FeedState {
                subscribers: (old(self)@.subscribers - 1) as nat,
                ..old(self)@
            }),
            final(self).spec_kind() == old(self).spec_kind(),
    {
        self.subscribers = self.subscribers - 1;
    }

    pub(crate) fn set_subscription(&mut self, handle: u64)
        ensures
            final(self)@ == (FeedState { subscription: Some(handle), ..old(self)@ }),
            final(self).spec_kind() == old(self).spec_kind(),
    {
        self.subscription = Some(handle);
    }

    pub(crate) fn set_notes(&mut self, notes: Vec<NoteRef>)
        ensures
            final(self)@ == (FeedState { notes: notes@, ..old(self)@ }),
            final(self).spec_kind() == old(self).spec_kind(),
    {
        self.notes = notes;
    }

    /// The state of a feed that one column has just opened.
    pub(crate) fn first_open(kind: TimelineKind) -> (timeline: Self)
        ensures
            timeline@ == (FeedState {
                kind: kind@,
                subscription: None,
                notes: Seq::<NoteRef>::empty(),
                subscribers: 1,
            }),
            timeline.spec_kind() == kind,
    {
        Timeline { kind, subscription: None, notes: Vec::new(), subscribers: 1 }
    }
}

} // verus!
