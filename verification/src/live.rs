//! Live review: a posted artifact offers a moderator two affordances,
//! "accept" and "deny", and waits a bounded time for one decision.
//!
//! The review is a one-shot guard. The first resolution event that arrives
//! in time for the review's own artifact is honoured; everything after it,
//! and everything that arrives at or after the deadline, is ignored. Only an
//! accepted review writes to the content store.

use vstd::prelude::*;
use crate::model::{Error, Invalid, PromptModel, SuggestionType};
use crate::store::{ContentStore, StoreModel};

verus! {

/// How long a live review waits for a decision, in seconds.
pub const REVIEW_TIMEOUT_SECS: u64 = 600;

/// The two ways in which a moderator can resolve a live review.
#[derive(Clone, Copy, Debug, PartialEq, Eq, Structural)]
pub enum Affordance {
    Accept,
    Deny,
}

/// The name under which an affordance is offered.
pub open spec fn affordance_name(affordance: Affordance) -> Seq<char> {
    match affordance {
        Affordance::Accept => "accept"@,
        Affordance::Deny => "deny"@,
    }
}

/// The affordance that a name stands for, if any.
pub open spec fn affordance_named(name: Seq<char>) -> Option<Affordance> {
    if name == "accept"@ {
        Some(Affordance::Accept)
    } else if name == "deny"@ {
        Some(Affordance::Deny)
    } else {
        None
    }
}

impl Affordance {
    /// The name under which the affordance is offered on the artifact.
    pub fn name(&self) -> (r: &'static str)
        ensures
            r@ == affordance_name(*self),
    {
        match self {
            Affordance::Accept => "accept",
            Affordance::Deny => "deny",
        }
    }

    /// Reads an affordance from the name that a resolution event carries.
    pub fn from_name(name: &str) -> (r: Option<Affordance>)
        ensures
            r == affordance_named(name@),
    {
        let owned = name.to_owned();
        if owned == "accept".to_owned() {
            Some(Affordance::Accept)
        } else if owned == "deny".to_owned() {
            Some(Affordance::Deny)
        } else {
            None
        }
    }
}

/// Each affordance is read back from its own name.
pub proof fn lemma_affordance_round_trip(affordance: Affordance)
    ensures
        affordance_named(affordance_name(affordance)) == Some(affordance),
{
    reveal_strlit("accept");
    reveal_strlit("deny");
    if affordance == Affordance::Deny {
        assert("deny"@.len() != "accept"@.len());
    }
}

/// Where a live review stands.
#[derive(Clone, Copy, Debug, PartialEq, Eq, Structural)]
pub enum Phase {
    /// No decision yet, and the deadline has not been acted on.
    Waiting,
    /// A moderator accepted; the prompt is in the store.
    Accepted,
    /// A moderator denied.
    Denied,
    /// The deadline passed with no decision.
    Expired,
}

/// What the caller has to do after an event.
#[derive(Clone, Copy, Debug, PartialEq, Eq, Structural)]
pub enum Reaction {
    /// Report "Accepted" and retract the affordances. The prompt made from
    /// the submission has this identifier.
    Accepted(u64),
    /// Report "Denied" and retract the affordances.
    Denied,
    /// The wait is over with no decision: retract the affordances.
    Expired,
    /// The event does not count: do nothing.
    Ignored,
    /// The store refused the prompt. The review is still waiting.
    Failed(Error),
}

/// The mathematical content of a live review.
pub struct LiveReviewModel {
    pub artifact: u64,
    pub category: SuggestionType,
    pub text: Seq<char>,
    pub safety_tag: bool,
    pub author: Seq<char>,
    pub opened_at: u64,
    pub phase: Phase,
}

impl LiveReviewModel {
    /// The submission under review has a text.
    pub open spec fn inv(self) -> bool {
        self.text.len() > 0
    }

    /// A moment is before the review's deadline.
    pub open spec fn in_time(self, at: u64) -> bool {
        at - self.opened_at < REVIEW_TIMEOUT_SECS
    }

    /// The seconds that are left before the deadline at a moment: none at
    /// or after it.
    pub open spec fn remaining(self, at: u64) -> int {
        if at <= self.opened_at {
            REVIEW_TIMEOUT_SECS as int
        } else if self.in_time(at) {
            REVIEW_TIMEOUT_SECS - (at - self.opened_at)
        } else {
            0
        }
    }

    /// A resolution event counts: the review is waiting, the event is meant
    /// for this review's artifact, and it arrived before the deadline.
    pub open spec fn honours(self, artifact: u64, at: u64) -> bool {
        self.phase == Phase::Waiting && artifact == self.artifact && self.in_time(at)
    }

    /// The prompt that accepting the review adds to a store.
    pub open spec fn prompt_for(self, store: StoreModel) -> PromptModel {
        store.fresh(self.category, self.text, self.safety_tag, self.author)
    }

    /// What a resolution event leads to.
    pub open spec fn resolve_reaction(
        self,
        store: StoreModel,
        artifact: u64,
        affordance: Affordance,
        at: u64,
    ) -> Reaction {
        if !self.honours(artifact, at) {
            Reaction::Ignored
        } else {
            match affordance {
                Affordance::Deny => Reaction::Denied,
                Affordance::Accept => match store.insert_result(self.text) {
                    Ok(id) => Reaction::Accepted(id),
                    Err(e) => Reaction::Failed(e),
                },
            }
        }
    }

    /// The review after a resolution event.
    pub open spec fn resolve(
        self,
        store: StoreModel,
        artifact: u64,
        affordance: Affordance,
        at: u64,
    ) -> LiveReviewModel {
        match self.resolve_reaction(store, artifact, affordance, at) {
            Reaction::Accepted(_) => LiveReviewModel { phase: Phase::Accepted, ..self },
            Reaction::Denied => LiveReviewModel { phase: Phase::Denied, ..self },
            _ => self,
        }
    }

    /// The store after a resolution event: one prompt longer where the
    /// review was accepted, unchanged otherwise.
    pub open spec fn resolve_store(
        self,
        store: StoreModel,
        artifact: u64,
        affordance: Affordance,
        at: u64,
    ) -> StoreModel {
        match self.resolve_reaction(store, artifact, affordance, at) {
            Reaction::Accepted(_) => store.insert(
                self.category,
                self.text,
                self.safety_tag,
                self.author,
            ),
            _ => store,
        }
    }

    /// What the passing of time leads to.
    pub open spec fn expire_reaction(self, at: u64) -> Reaction {
        if self.phase == Phase::Waiting && !self.in_time(at) {
            Reaction::Expired
        } else {
            Reaction::Ignored
        }
    }

    /// The review after time has passed.
    pub open spec fn expire(self, at: u64) -> LiveReviewModel {
        if self.expire_reaction(at) == Reaction::Expired {
            LiveReviewModel { phase: Phase::Expired, ..self }
        } else {
            self
        }
    }
}

/// One live review: the submission, the artifact it was posted on, and the
/// guard that lets one decision through.
#[derive(Debug)]
pub struct LiveReview {
    artifact: u64,
    category: SuggestionType,
    text: String,
    safety_tag: bool,
    author: String,
    opened_at: u64,
    phase: Phase,
}

impl View for LiveReview {
    type V = LiveReviewModel;

    closed spec fn view(&self) -> LiveReviewModel {
        LiveReviewModel {
            artifact: self.artifact,
            category: self.category,
            text: self.text@,
            safety_tag: self.safety_tag,
            author: self.author@,
            opened_at: self.opened_at,
            phase: self.phase,
        }
    }
}

impl LiveReview {
    /// The review's invariant holds.
    pub open spec fn wf(&self) -> bool {
        self@.inv()
    }

    /// Opens the wait for one decision on an artifact, at the moment `now`
    /// (in seconds). An empty text is refused.
    pub fn open(
        artifact: u64,
        category: SuggestionType,
        text: String,
        safety_tag: bool,
        author: String,
        now: u64,
    ) -> (r: Result<LiveReview, Error>)
        ensures
            match r {
                Ok(review) => text@.len() > 0 && review.wf() && review@ == (LiveReviewModel {
                    artifact,
                    category,
                    text: text@,
                    safety_tag,
                    author: author@,
                    opened_at: now,
                    phase: Phase::Waiting,
                }),
                Err(e) => text@.len() == 0 && e == Error::Validation(Invalid::EmptyText),
            },
    {
        if text.as_str().is_empty() {
            return Err(Error::Validation(Invalid::EmptyText));
        }
        Ok(
            LiveReview {
                artifact,
                category,
                text,
                safety_tag,
                author,
                opened_at: now,
                phase: Phase::Waiting,
            },
        )
    }

    /// The affordances that the artifact of a review offers: these two,
    /// and no other.
    pub fn affordances() -> (r: Vec<Affordance>)
        ensures
            r@ == seq![Affordance::Accept, Affordance::Deny],
    {
        let mut r: Vec<Affordance> = Vec::new();
        r.push(Affordance::Accept);
        r.push(Affordance::Deny);
        assert(r@ =~= seq![Affordance::Accept, Affordance::Deny]);
        r
    }

    /// Where the review stands.
    pub fn phase(&self) -> (r: Phase)
        ensures
            r == self@.phase,
    {
        self.phase
    }

    /// The artifact that the review was posted on.
    pub fn artifact(&self) -> (r: u64)
        ensures
            r == self@.artifact,
    {
        self.artifact
    }

    /// Whether a moment is before the review's deadline.
    pub fn in_time(&self, at: u64) -> (r: bool)
        ensures
            r == self@.in_time(at),
    {
        at < self.opened_at || at - self.opened_at < REVIEW_TIMEOUT_SECS
    }

    /// The seconds that the wait may still last at a moment.
    pub fn remaining(&self, at: u64) -> (r: u64)
        ensures
            r == self@.remaining(at),
            r > 0 <==> self@.in_time(at),
    {
        if at <= self.opened_at {
            REVIEW_TIMEOUT_SECS
        } else if at - self.opened_at < REVIEW_TIMEOUT_SECS {
            REVIEW_TIMEOUT_SECS - (at - self.opened_at)
        } else {
            0
        }
    }

    /// Delivers a resolution event: an affordance used on an artifact at a
    /// moment. The event counts only if the review is waiting, the artifact
    /// is the review's own and the moment is before the deadline. An
    /// accepted review writes one prompt with the submission's fields; if
    /// the store refuses it, the review goes on waiting. A denied review
    /// writes nothing.
    pub fn resolve(
        &mut self,
        store: &mut ContentStore,
        artifact: u64,
        affordance: Affordance,
        at: u64,
    ) -> (r: Reaction)
        requires
            old(self).wf(),
            old(store).wf(),
        ensures
            final(self).wf(),
            final(store).wf(),
            r == old(self)@.resolve_reaction(old(store)@, artifact, affordance, at),
            final(self)@ == old(self)@.resolve(old(store)@, artifact, affordance, at),
            final(store)@ == old(self)@.resolve_store(old(store)@, artifact, affordance, at),
    {
        match self.phase {
            Phase::Waiting => {},
            _ => {
                return Reaction::Ignored;
            },
        }
        if artifact != self.artifact || !self.in_time(at) {
            return Reaction::Ignored;
        }
        match affordance {
            Affordance::Deny => {
                self.phase = Phase::Denied;
                Reaction::Denied
            },
            Affordance::Accept => {
                let text = self.text.clone();
                let author = self.author.clone();
                match store.insert(self.category, text, self.safety_tag, author) {
                    Ok(id) => {
                        self.phase = Phase::Accepted;
                        Reaction::Accepted(id)
                    },
                    Err(e) => Reaction::Failed(e),
                }
            },
        }
    }

    /// Tells the review what time it is. A waiting review whose deadline
    /// has come expires; nothing else changes, and nothing is written.
    pub fn expire(&mut self, at: u64) -> (r: Reaction)
        requires
            old(self).wf(),
        ensures
            final(self).wf(),
            r == old(self)@.expire_reaction(at),
            final(self)@ == old(self)@.expire(at),
    {
        match self.phase {
            Phase::Waiting => {},
            _ => {
                return Reaction::Ignored;
            },
        }
        if self.in_time(at) {
            return Reaction::Ignored;
        }
        self.phase = Phase::Expired;
        Reaction::Expired
    }
}

/// A review that is no longer waiting lets nothing through: every later
/// resolution event and every later tick is ignored, and neither the review
/// nor the store changes.
pub proof fn lemma_decided_review_is_closed(
    r: LiveReviewModel,
    store: StoreModel,
    artifact: u64,
    affordance: Affordance,
    at: u64,
)
    requires
        r.phase != Phase::Waiting,
    ensures
        r.resolve_reaction(store, artifact, affordance, at) == Reaction::Ignored,
        r.resolve(store, artifact, affordance, at) == r,
        r.resolve_store(store, artifact, affordance, at) == store,
        r.expire_reaction(at) == Reaction::Ignored,
        r.expire(at) == r,
{
}

/// Accepting twice writes one prompt. The first accept that counts adds
/// the submission's prompt to the store; a second event on the same
/// review, whatever it says and whenever it comes, is ignored and leaves
/// the store as the first left it.
pub proof fn lemma_accept_twice(
    r: LiveReviewModel,
    store: StoreModel,
    at: u64,
    again: Affordance,
    later: u64,
)
    requires
        r.honours(r.artifact, at),
        !store.full(),
        r.inv(),
    ensures
        r.resolve_reaction(store, r.artifact, Affordance::Accept, at) == Reaction::Accepted(
            store.next_id as u64,
        ),
        ({
            let first = r.resolve(store, r.artifact, Affordance::Accept, at);
            let written = r.resolve_store(store, r.artifact, Affordance::Accept, at);
            &&& first.phase == Phase::Accepted
            &&& written.prompts == store.prompts.push(r.prompt_for(store))
            &&& first.resolve_reaction(written, r.artifact, again, later) == Reaction::Ignored
            &&& first.resolve_store(written, r.artifact, again, later) == written
            &&& first.resolve(written, r.artifact, again, later) == first
        }),
{
}

/// A denied review writes nothing, and cannot be accepted afterwards.
pub proof fn lemma_deny_writes_nothing(
    r: LiveReviewModel,
    store: StoreModel,
    at: u64,
    again: Affordance,
    later: u64,
)
    requires
        r.honours(r.artifact, at),
    ensures
        r.resolve_reaction(store, r.artifact, Affordance::Deny, at) == Reaction::Denied,
        r.resolve_store(store, r.artifact, Affordance::Deny, at) == store,
        ({
            let first = r.resolve(store, r.artifact, Affordance::Deny, at);
            &&& first.phase == Phase::Denied
            &&& first.resolve_reaction(store, r.artifact, again, later) == Reaction::Ignored
            &&& first.resolve_store(store, r.artifact, again, later) == store
        }),
{
}

/// A wait that gets no decision before its deadline ends with nothing
/// written: the tick at or after the deadline expires the review and leaves
/// the submission's fields alone. A resolution event that arrives at or
/// after the deadline has no effect, whether the review has expired by then
/// or is still waiting for the tick.
pub proof fn lemma_timeout_writes_nothing(
    r: LiveReviewModel,
    store: StoreModel,
    at: u64,
    artifact: u64,
    affordance: Affordance,
    late: u64,
)
    requires
        r.phase == Phase::Waiting,
        !r.in_time(at),
        !r.in_time(late),
    ensures
        r.expire_reaction(at) == Reaction::Expired,
        r.expire(at) == (LiveReviewModel { phase: Phase::Expired, ..r }),
        r.resolve_reaction(store, artifact, affordance, late) == Reaction::Ignored,
        r.resolve(store, artifact, affordance, late) == r,
        r.resolve_store(store, artifact, affordance, late) == store,
        r.expire(at).resolve_reaction(store, artifact, affordance, late) == Reaction::Ignored,
        r.expire(at).resolve(store, artifact, affordance, late) == r.expire(at),
        r.expire(at).resolve_store(store, artifact, affordance, late) == store,
{
}

/// An event for another artifact, and a tick before the deadline, change
/// nothing.
pub proof fn lemma_stray_events_are_ignored(
    r: LiveReviewModel,
    store: StoreModel,
    artifact: u64,
    affordance: Affordance,
    at: u64,
)
    ensures
        artifact != r.artifact ==> r.resolve_reaction(store, artifact, affordance, at)
            == Reaction::Ignored && r.resolve(store, artifact, affordance, at) == r
            && r.resolve_store(store, artifact, affordance, at) == store,
        r.in_time(at) ==> r.expire_reaction(at) == Reaction::Ignored && r.expire(at) == r,
{
}

} // verus!
