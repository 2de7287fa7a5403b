//! A blog post on its way from draft to publication.
//!
//! A post is written as a draft, goes to review on request, and is published when
//! the review approves it. Only a published post shows its text.

use vstd::prelude::*;

verus! {

/// Where a post stands on its way.
#[derive(Clone, Copy, PartialEq, Eq, Structural, Debug)]
pub enum State {
    /// Being written; not shown.
    Draft,
    /// Waiting for approval; not shown.
    PendingReview,
    /// Approved; shown.
    Published,
}

impl State {
    /// Where a post stands after a review was asked for: a draft goes to review,
    /// every other state stays.
    pub open spec fn after_request(self) -> State {
        match self {
            State::Draft => State::PendingReview,
            other => other,
        }
    }

    /// Where a post stands after an approval: a post in review is published,
    /// every other state stays.
    pub open spec fn after_approval(self) -> State {
        match self {
            State::PendingReview => State::Published,
            other => other,
        }
    }

    /// Where a post stands after a rejection: it is a draft again, wherever it
    /// stood.
    pub open spec fn after_rejection(self) -> State {
        State::Draft
    }

    /// What a post in this state shows of its text.
    pub open spec fn shown(self, text: Seq<char>) -> Seq<char> {
        match self {
            State::Published => text,
            _ => Seq::empty(),
        }
    }

    pub fn request_review(self) -> (next: State)
        ensures
            next == self.after_request(),
    {
        match self {
            State::Draft => State::PendingReview,
            other => other,
        }
    }

    pub fn approve(self) -> (next: State)
        ensures
            next == self.after_approval(),
    {
        match self {
            State::PendingReview => State::Published,
            other => other,
        }
    }

    pub fn reject(self) -> (next: State)
        ensures
            next == self.after_rejection(),
    {
        State::Draft
    }

    pub fn content<'a>(&self, post: &'a Post) -> (shown: &'a str)
        ensures
            shown@ == self.shown(post.text()),
    {
        match self {
            State::Published => post.content.as_str(),
            _ => {
                proof {
                    reveal_strlit("");
                }
                let nothing = "";
                assert(nothing@ =~= Seq::<char>::empty());
                nothing
            },
        }
    }
}

/// A post: the text written so far and where the post stands.
pub struct Post {
    state: Option<State>,
    content: String,
}

impl Default for Post {
    /// A post with no text that stands nowhere: it shows nothing and goes nowhere.
    fn default() -> (post: Post)
        ensures
            post.state() is None,
            post.text() == Seq::<char>::empty(),
    {
        Post { state: None, content: String::new() }
    }
}

impl Post {
    /// Where the post stands. `None` only for a post made by `default`.
    pub closed spec fn state(&self) -> Option<State> {
        self.state
    }

    /// All the text written so far, shown or not.
    pub closed spec fn text(&self) -> Seq<char> {
        self.content@
    }

    /// An empty draft.
    pub fn new() -> (post: Post)
        ensures
            post.state() == Some(State::Draft),
            post.text() == Seq::<char>::empty(),
    {
        Post { state: Some(State::Draft), content: String::new() }
    }

    /// Adds to the text, in whatever state the post is.
    pub fn add_text(&mut self, text: &str)
        ensures
            final(self).text() == old(self).text() + text@,
            final(self).state() == old(self).state(),
    {
        self.content.append(text);
    }

    /// What the post shows: its text once it is published, nothing before.
    pub fn content(&self) -> (shown: &str)
        requires
            self.state() is Some,
        ensures
            shown@ == self.state()->Some_0.shown(self.text()),
    {
        match &self.state {
            Some(state) => state.content(self),
            None => unreached(),
        }
    }

    /// Asks for a review.
    pub fn request_review(&mut self)
        ensures
            final(self).text() == old(self).text(),
            final(self).state() == match old(self).state() {
                Some(state) => Some(state.after_request()),
                None => None,
            },
    {
        if let Some(s) = self.state.take() {
            self.state = Some(s.request_review())
        }
    }

    /// Approves the post.
    pub fn aprove(&mut self)
        ensures
            final(self).text() == old(self).text(),
            final(self).state() == match old(self).state() {
                Some(state) => Some(state.after_approval()),
                None => None,
            },
    {
        if let Some(s) = self.state.take() {
            self.state = Some(s.approve())
        }
    }

    /// Sends the post back to its author.
    pub fn reject(&mut self)
        ensures
            final(self).text() == old(self).text(),
            final(self).state() == match old(self).state() {
                Some(state) => Some(state.after_rejection()),
                None => None,
            },
    {
        if let Some(s) = self.state.take() {
            self.state = Some(s.reject())
        }
    }
}

/// No post is published but through review: an approval publishes only what was
/// in review or published already, and a request for review never publishes.
pub proof fn lemma_published_only_after_review(state: State)
    ensures
        state.after_approval() == State::Published ==> state == State::PendingReview || state
            == State::Published,
        state.after_request() == State::Published ==> state == State::Published,
        state.after_rejection() != State::Published,
{
}

/// Asking twice or approving twice does no more than doing so once.
pub proof fn lemma_steps_idempotent(state: State)
    ensures
        state.after_request().after_request() == state.after_request(),
        state.after_approval().after_approval() == state.after_approval(),
        state.after_rejection().after_rejection() == state.after_rejection(),
{
}

/// What a post shows is either nothing or all of its text.
pub proof fn lemma_shown_all_or_nothing(state: State, text: Seq<char>)
    ensures
        state.shown(text) == text || state.shown(text) == Seq::<char>::empty(),
        state != State::Published ==> state.shown(text) == Seq::<char>::empty(),
{
}

} // verus!
