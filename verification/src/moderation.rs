//! Deferred review: submissions wait in a queue until a moderator approves
//! or rejects them by identifier.
//!
//! A submission leaves `Pending` at most once. Only an approval writes to
//! the content store, and it writes exactly one prompt, with the
//! submission's own fields. Where that write is refused the submission
//! stays pending.

use vstd::prelude::*;
use crate::model::{Error, Invalid, Missing, PromptModel, SuggestionType};
use crate::live::{Affordance, LiveReview, Reaction};
use crate::store::{ContentStore, StoreModel};

verus! {

/// Where a submission stands in its review.
#[derive(Clone, Copy, Debug, PartialEq, Eq, Structural)]
pub enum Status {
    Pending,
    Approved,
    Rejected,
}

/// The word under which a status is stored.
pub open spec fn status_name(status: Status) -> Seq<char> {
    match status {
        Status::Pending => "pending"@,
        Status::Approved => "approved"@,
        Status::Rejected => "rejected"@,
    }
}

/// The status that a stored word stands for, if any.
pub open spec fn status_named(name: Seq<char>) -> Option<Status> {
    if name == "pending"@ {
        Some(Status::Pending)
    } else if name == "approved"@ {
        Some(Status::Approved)
    } else if name == "rejected"@ {
        Some(Status::Rejected)
    } else {
        None
    }
}

impl Status {
    /// The word under which the status is stored.
    pub fn name(&self) -> (r: &'static str)
        ensures
            r@ == status_name(*self),
    {
        match self {
            Status::Pending => "pending",
            Status::Approved => "approved",
            Status::Rejected => "rejected",
        }
    }

    /// Reads a status from the word under which it was stored.
    pub fn from_name(name: &str) -> (r: Option<Status>)
        ensures
            r == status_named(name@),
    {
        let owned = name.to_owned();
        if owned == "pending".to_owned() {
            Some(Status::Pending)
        } else if owned == "approved".to_owned() {
            Some(Status::Approved)
        } else if owned == "rejected".to_owned() {
            Some(Status::Rejected)
        } else {
            None
        }
    }
}

/// Each status is read back from its own word.
pub proof fn lemma_status_round_trip(status: Status)
    ensures
        status_named(status_name(status)) == Some(status),
{
    reveal_strlit("pending");
    reveal_strlit("approved");
    reveal_strlit("rejected");
    assert("pending"@[0] != "approved"@[0]);
    assert("pending"@[0] != "rejected"@[0]);
    assert("approved"@[0] != "rejected"@[0]);
}

/// The mathematical content of a submission.
pub struct SubmissionModel {
    pub id: int,
    pub category: SuggestionType,
    pub text: Seq<char>,
    pub safety_tag: bool,
    pub author: Seq<char>,
    pub status: Status,
}

impl SubmissionModel {
    /// The same submission with another status.
    pub open spec fn with_status(self, status: Status) -> SubmissionModel {
        SubmissionModel { status, ..self }
    }
}

/// A proposed prompt and the state of its review. Submissions are kept
/// for good: the queue is also the record of what was decided.
#[derive(Debug, PartialEq, Eq)]
pub struct Submission {
    pub id: u64,
    pub category: SuggestionType,
    pub text: String,
    pub safety_tag: bool,
    pub author: String,
    pub status: Status,
}

impl View for Submission {
    type V = SubmissionModel;

    open spec fn view(&self) -> SubmissionModel {
        SubmissionModel {
            id: self.id as int,
            category: self.category,
            text: self.text@,
            safety_tag: self.safety_tag,
            author: self.author@,
            status: self.status,
        }
    }
}

impl Clone for Submission {
    fn clone(&self) -> (r: Submission)
        ensures
            r@ == self@,
    {
        Submission {
            id: self.id,
            category: self.category,
            text: self.text.clone(),
            safety_tag: self.safety_tag,
            author: self.author.clone(),
            status: self.status,
        }
    }
}

/// The request to post a new submission where moderators will see it. It
/// carries the identifier by which the submission is approved or rejected
/// later.
#[derive(Debug, PartialEq, Eq)]
pub struct Notice {
    pub submission: u64,
    pub category: SuggestionType,
    pub text: String,
    pub safety_tag: bool,
    pub author: String,
}

impl View for Notice {
    type V = SubmissionModel;

    /// A notice reads as the pending submission that it announces.
    open spec fn view(&self) -> SubmissionModel {
        SubmissionModel {
            id: self.submission as int,
            category: self.category,
            text: self.text@,
            safety_tag: self.safety_tag,
            author: self.author@,
            status: Status::Pending,
        }
    }
}

/// What a moderator's decision did.
#[derive(Clone, Copy, Debug, PartialEq, Eq, Structural)]
pub enum Outcome {
    /// The submission was pending and is now approved; the prompt made
    /// from it has this identifier.
    Approved(u64),
    /// The submission was pending and is now rejected.
    Rejected,
    /// The submission had been resolved before, with this status. Nothing
    /// was changed.
    AlreadyResolved(Status),
}

/// The mathematical content of the workflow: the content store, the queue
/// in order of submission, and the identifier that the next submission
/// will get.
pub struct ModerationModel {
    pub store: StoreModel,
    pub submissions: Seq<SubmissionModel>,
    pub next_id: int,
}

impl ModerationModel {
    /// The store's invariant holds; submission identifiers are positive,
    /// strictly increasing and below `next_id`; no submission has an empty
    /// text.
    pub open spec fn inv(self) -> bool {
        &&& self.store.inv()
        &&& 1 <= self.next_id <= u64::MAX
        &&& forall|i: int|
            0 <= i < self.submissions.len() ==> {
                &&& 0 < (#[trigger] self.submissions[i]).id < self.next_id
                &&& self.submissions[i].text.len() > 0
            }
        &&& forall|i: int, j: int|
            0 <= i < j < self.submissions.len() ==> (#[trigger] self.submissions[i]).id < (
            #[trigger] self.submissions[j]).id
    }

    /// An empty queue beside an empty store.
    pub open spec fn empty() -> ModerationModel {
        ModerationModel { store: StoreModel::empty(), submissions: Seq::empty(), next_id: 1 }
    }

    /// The workflow that a store and a list of stored submissions stand
    /// for: the submissions as they are, and the identifier after the last
    /// one as the next.
    pub open spec fn loaded(store: StoreModel, rows: Seq<SubmissionModel>) -> ModerationModel {
        ModerationModel {
            store,
            submissions: rows,
            next_id: if rows.len() == 0 {
                1
            } else {
                rows.last().id + 1
            },
        }
    }

    /// Some submission carries the identifier.
    pub open spec fn has(self, id: u64) -> bool {
        exists|i: int| 0 <= i < self.submissions.len() && (#[trigger] self.submissions[i]).id == id
    }

    /// The place in the queue of the submission with an identifier.
    pub open spec fn position(self, id: u64) -> Option<int> {
        if self.has(id) {
            Some(
                choose|i: int|
                    0 <= i < self.submissions.len() && (#[trigger] self.submissions[i]).id == id,
            )
        } else {
            None
        }
    }

    /// The status of the submission with an identifier.
    pub open spec fn status_of(self, id: u64) -> Option<Status> {
        match self.position(id) {
            Some(i) => Some(self.submissions[i].status),
            None => None,
        }
    }

    /// The outcome of a submission, decided before anything is written.
    pub open spec fn submit_result(self, text: Seq<char>) -> Result<u64, Error> {
        if text.len() == 0 {
            Err(Error::Validation(Invalid::EmptyText))
        } else if self.next_id >= u64::MAX {
            Err(Error::Storage)
        } else {
            Ok(self.next_id as u64)
        }
    }

    /// The workflow after a submission: one pending record longer where the
    /// submission is taken, unchanged where it is refused.
    pub open spec fn submit(
        self,
        category: SuggestionType,
        text: Seq<char>,
        safety_tag: bool,
        author: Seq<char>,
    ) -> ModerationModel {
        if self.submit_result(text).is_ok() {
            ModerationModel {
                submissions: self.submissions.push(
                    SubmissionModel {
                        id: self.next_id,
                        category,
                        text,
                        safety_tag,
                        author,
                        status: Status::Pending,
                    },
                ),
                next_id: self.next_id + 1,
                ..self
            }
        } else {
            self
        }
    }

    /// What an approval reports.
    pub open spec fn approve_result(self, id: u64) -> Result<Outcome, Error> {
        match self.position(id) {
            None => Err(Error::NotFound(Missing::Submission(id))),
            Some(i) => {
                let s = self.submissions[i];
                if s.status != Status::Pending {
                    Ok(Outcome::AlreadyResolved(s.status))
                } else {
                    match self.store.insert_result(s.text) {
                        Ok(prompt_id) => Ok(Outcome::Approved(prompt_id)),
                        Err(e) => Err(e),
                    }
                }
            },
        }
    }

    /// The workflow after an approval. Where the approval reports
    /// `Approved`, the submission's status is `Approved` and the store holds
    /// one more prompt, made of the submission's fields; in every other
    /// case nothing has changed.
    pub open spec fn approve(self, id: u64) -> ModerationModel {
        match (self.position(id), self.approve_result(id)) {
            (Some(i), Ok(Outcome::Approved(_))) => {
                let s = self.submissions[i];
                ModerationModel {
                    store: self.store.insert(s.category, s.text, s.safety_tag, s.author),
                    submissions: self.submissions.update(i, s.with_status(Status::Approved)),
                    ..self
                }
            },
            _ => self,
        }
    }

    /// What a rejection reports.
    pub open spec fn reject_result(self, id: u64) -> Result<Outcome, Error> {
        match self.position(id) {
            None => Err(Error::NotFound(Missing::Submission(id))),
            Some(i) => {
                let s = self.submissions[i];
                if s.status != Status::Pending {
                    Ok(Outcome::AlreadyResolved(s.status))
                } else {
                    Ok(Outcome::Rejected)
                }
            },
        }
    }

    /// The workflow after a rejection. Where the rejection reports
    /// `Rejected`, the submission's status is `Rejected`; in every other
    /// case nothing has changed. The store is never touched.
    pub open spec fn reject(self, id: u64) -> ModerationModel {
        match (self.position(id), self.reject_result(id)) {
            (Some(i), Ok(Outcome::Rejected)) => ModerationModel {
                submissions: self.submissions.update(
                    i,
                    self.submissions[i].with_status(Status::Rejected),
                ),
                ..self
            },
            _ => self,
        }
    }

    /// The prompt that approving a submission adds to the store.
    pub open spec fn prompt_for(self, s: SubmissionModel) -> PromptModel {
        self.store.fresh(s.category, s.text, s.safety_tag, s.author)
    }
}

/// In a well-formed queue an identifier names at most one submission: the
/// place where it is found is its position.
pub proof fn lemma_position_is_unique(m: ModerationModel, id: u64, i: int)
    requires
        m.inv(),
        0 <= i < m.submissions.len(),
        m.submissions[i].id == id,
    ensures
        m.position(id) == Some(i),
{
    let j = choose|j: int| 0 <= j < m.submissions.len() && (#[trigger] m.submissions[j]).id == id;
    if j < i {
        assert(m.submissions[j].id < m.submissions[i].id);
    } else if i < j {
        assert(m.submissions[i].id < m.submissions[j].id);
    }
}

/// The mathematical content of a list of submissions.
pub open spec fn submission_models(rows: Seq<Submission>) -> Seq<SubmissionModel> {
    Seq::new(rows.len(), |i: int| rows[i]@)
}

/// The moderation workflow: the content store and the queue of
/// submissions that feed it.
pub struct Moderation {
    store: ContentStore,
    queue: Vec<Submission>,
    next_id: u64,
}

impl View for Moderation {
    type V = ModerationModel;

    closed spec fn view(&self) -> ModerationModel {
        ModerationModel {
            store: self.store@,
            submissions: submission_models(self.queue@),
            next_id: self.next_id as int,
        }
    }
}

impl Moderation {
    /// The workflow's invariant holds.
    pub open spec fn wf(&self) -> bool {
        self@.inv()
    }

    /// A workflow with an empty queue and an empty store. The first
    /// submission and the first prompt each get the identifier 1.
    pub fn new() -> (r: Moderation)
        ensures
            r.wf(),
            r@ == ModerationModel::empty(),
    {
        let r = Moderation { store: ContentStore::new(), queue: Vec::new(), next_id: 1 };
        assert(r@.submissions =~= Seq::empty());
        r
    }

    /// Rebuilds a workflow from a store and from submissions that were
    /// stored before, in order of submission. The rows are taken only if
    /// they could have come from a queue: identifiers positive and strictly
    /// increasing with room for one more, and no empty text. Otherwise the
    /// result is `None`.
    pub fn restore(store: ContentStore, rows: Vec<Submission>) -> (r: Option<Moderation>)
        requires
            store.wf(),
        ensures
            match r {
                Some(m) => m.wf() && m@ == ModerationModel::loaded(store@, submission_models(rows@)),
                None => !ModerationModel::loaded(store@, submission_models(rows@)).inv(),
            },
    {
        let ghost all = submission_models(rows@);
        let ghost target = ModerationModel::loaded(store@, all);
        let mut last: u64 = 0;
        let mut i: usize = 0;
        while i < rows.len()
            invariant
                0 <= i <= rows.len(),
                all == submission_models(rows@),
                target == ModerationModel::loaded(store@, all),
                last < u64::MAX,
                i == 0 ==> last == 0,
                i > 0 ==> last == all[i - 1].id,
                forall|j: int| 0 <= j < i ==> 0 < (#[trigger] all[j]).id <= last && all[j].text.len() > 0,
                forall|j: int, k: int| 0 <= j < k < i ==> (#[trigger] all[j]).id < (#[trigger] all[k]).id,
            decreases rows.len() - i,
        {
            let row = &rows[i];
            assert(all[i as int] == row@);
            if row.text.as_str().is_empty() || row.id <= last || row.id == u64::MAX {
                proof {
                    if target.inv() {
                        let n = all.len() - 1;
                        if i > 0 {
                            assert(all[i - 1].id < all[i as int].id);
                        }
                        if i < n {
                            assert(all[i as int].id < all[n].id);
                        }
                        assert(all[i as int].id < target.next_id);
                    }
                }
                return None;
            }
            last = row.id;
            i = i + 1;
        }
        let m = Moderation { store, queue: rows, next_id: last + 1 };
        assert(m@.submissions =~= all);
        Some(m)
    }

    /// The number of submissions in the queue, resolved ones included.
    pub fn len(&self) -> (n: usize)
        ensures
            n == self@.submissions.len(),
    {
        self.queue.len()
    }

    /// The submission at a place in the queue, in order of submission.
    pub fn at(&self, index: usize) -> (r: Option<&Submission>)
        ensures
            match r {
                Some(s) => index < self@.submissions.len() && s@ == self@.submissions[index as int],
                None => index >= self@.submissions.len(),
            },
    {
        if index < self.queue.len() {
            Some(&self.queue[index])
        } else {
            None
        }
    }

    /// Adds a prompt to the store directly, past the queue: what an
    /// authorized admin command does. The queue is not touched.
    pub fn insert_prompt(
        &mut self,
        category: SuggestionType,
        text: String,
        safety_tag: bool,
        author: String,
    ) -> (r: Result<u64, Error>)
        requires
            old(self).wf(),
        ensures
            final(self).wf(),
            r == old(self)@.store.insert_result(text@),
            final(self)@ == (ModerationModel {
                store: old(self)@.store.insert(category, text@, safety_tag, author@),
                ..old(self)@
            }),
    {
        self.store.insert(category, text, safety_tag, author)
    }

    /// Delivers a resolution event to a live review, with this workflow's
    /// store as the one that an accepted review writes to. The queue is not
    /// touched: a live review has no record in it.
    pub fn resolve_live(
        &mut self,
        review: &mut LiveReview,
        artifact: u64,
        affordance: Affordance,
        at: u64,
    ) -> (r: Reaction)
        requires
            old(self).wf(),
            old(review).wf(),
        ensures
            final(self).wf(),
            final(review).wf(),
            r == old(review)@.resolve_reaction(old(self)@.store, artifact, affordance, at),
            final(review)@ == old(review)@.resolve(old(self)@.store, artifact, affordance, at),
            final(self)@ == (ModerationModel {
                store: old(review)@.resolve_store(old(self)@.store, artifact, affordance, at),
                ..old(self)@
            }),
    {
        review.resolve(&mut self.store, artifact, affordance, at)
    }

    /// The content store that approvals write to.
    pub fn store(&self) -> (r: &ContentStore)
        ensures
            r@ == self@.store,
    {
        &self.store
    }

    /// The place in the queue of the submission with an identifier.
    fn find(&self, id: u64) -> (r: Option<usize>)
        requires
            self.wf(),
        ensures
            match r {
                Some(i) => self@.position(id) == Some(i as int) && i < self.queue@.len(),
                None => self@.position(id).is_none(),
            },
    {
        let mut i: usize = 0;
        while i < self.queue.len()
            invariant
                0 <= i <= self.queue.len(),
                self.wf(),
                forall|j: int| 0 <= j < i ==> (#[trigger] self@.submissions[j]).id != id,
            decreases self.queue.len() - i,
        {
            if self.queue[i].id == id {
                proof {
                    assert(self@.submissions[i as int] == self.queue@[i as int]@);
                    lemma_position_is_unique(self@, id, i as int);
                }
                return Some(i);
            }
            assert(self@.submissions[i as int] == self.queue@[i as int]@);
            i = i + 1;
        }
        None
    }

    /// The submission with an identifier, if there is one.
    pub fn get(&self, id: u64) -> (r: Option<&Submission>)
        requires
            self.wf(),
        ensures
            match r {
                Some(s) => self@.position(id).is_some() && s@ == self@.submissions[self@.position(
                    id,
                ).unwrap()],
                None => !self@.has(id),
            },
    {
        match self.find(id) {
            Some(i) => Some(&self.queue[i]),
            None => None,
        }
    }

    /// The status of the submission with an identifier, if there is one.
    pub fn status(&self, id: u64) -> (r: Option<Status>)
        requires
            self.wf(),
        ensures
            r == self@.status_of(id),
    {
        match self.find(id) {
            Some(i) => Some(self.queue[i].status),
            None => None,
        }
    }

    /// Takes a submission into the queue as pending and returns its
    /// identifier. An empty text is refused, and so is any submission once
    /// the identifiers are used up; in both cases nothing changes.
    pub fn submit(
        &mut self,
        category: SuggestionType,
        text: String,
        safety_tag: bool,
        author: String,
    ) -> (r: Result<u64, Error>)
        requires
            old(self).wf(),
        ensures
            final(self).wf(),
            r == old(self)@.submit_result(text@),
            final(self)@ == old(self)@.submit(category, text@, safety_tag, author@),
    {
        if text.as_str().is_empty() {
            return Err(Error::Validation(Invalid::EmptyText));
        }
        if self.next_id == u64::MAX {
            return Err(Error::Storage);
        }
        let id = self.next_id;
        self.queue.push(Submission { id, category, text, safety_tag, author, status: Status::Pending });
        self.next_id = id + 1;
        proof {
            assert(final(self)@.submissions =~= old(self)@.submit(
                category,
                text@,
                safety_tag,
                author@,
            ).submissions);
        }
        Ok(id)
    }

    /// Approves a submission. A pending submission becomes approved and
    /// one prompt with its fields enters the store; a submission resolved
    /// before is reported as such and nothing changes; an unknown
    /// identifier is an error. Where the store refuses the prompt, the
    /// error is passed on and the submission stays pending.
    pub fn approve(&mut self, id: u64) -> (r: Result<Outcome, Error>)
        requires
            old(self).wf(),
        ensures
            final(self).wf(),
            r == old(self)@.approve_result(id),
            final(self)@ == old(self)@.approve(id),
    {
        let i = match self.find(id) {
            Some(i) => i,
            None => {
                return Err(Error::NotFound(Missing::Submission(id)));
            },
        };
        assert(self@.submissions[i as int] == self.queue@[i as int]@);
        let current = self.queue[i].clone();
        match current.status {
            Status::Pending => {},
            Status::Approved => {
                return Ok(Outcome::AlreadyResolved(Status::Approved));
            },
            Status::Rejected => {
                return Ok(Outcome::AlreadyResolved(Status::Rejected));
            },
        }
        let text = current.text.clone();
        let author = current.author.clone();
        match self.store.insert(current.category, text, current.safety_tag, author) {
            Ok(prompt_id) => {
                let mut resolved = current;
                resolved.status = Status::Approved;
                self.queue.set(i, resolved);
                proof {
                    assert(final(self)@.submissions =~= old(self)@.approve(id).submissions);
                }
                Ok(Outcome::Approved(prompt_id))
            },
            Err(e) => Err(e),
        }
    }

    /// Rejects a submission. A pending submission becomes rejected; a
    /// submission resolved before is reported as such and nothing changes;
    /// an unknown identifier is an error. The store is never written.
    pub fn reject(&mut self, id: u64) -> (r: Result<Outcome, Error>)
        requires
            old(self).wf(),
        ensures
            final(self).wf(),
            r == old(self)@.reject_result(id),
            final(self)@ == old(self)@.reject(id),
    {
        let i = match self.find(id) {
            Some(i) => i,
            None => {
                return Err(Error::NotFound(Missing::Submission(id)));
            },
        };
        assert(self@.submissions[i as int] == self.queue@[i as int]@);
        let mut resolved = self.queue[i].clone();
        match resolved.status {
            Status::Pending => {},
            Status::Approved => {
                return Ok(Outcome::AlreadyResolved(Status::Approved));
            },
            Status::Rejected => {
                return Ok(Outcome::AlreadyResolved(Status::Rejected));
            },
        }
        resolved.status = Status::Rejected;
        self.queue.set(i, resolved);
        proof {
            assert(final(self)@.submissions =~= old(self)@.reject(id).submissions);
        }
        Ok(Outcome::Rejected)
    }
}

/// Takes a suggestion into the queue and says what to post for the
/// moderators: the new submission with its identifier. A refused
/// suggestion changes nothing and posts nothing.
pub fn suggest(
    workflow: &mut Moderation,
    kind: SuggestionType,
    suggestion: String,
    nsfw: bool,
    author: String,
) -> (r: Result<Notice, Error>)
    requires
        old(workflow).wf(),
    ensures
        final(workflow).wf(),
        final(workflow)@ == old(workflow)@.submit(kind, suggestion@, nsfw, author@),
        match r {
            Ok(notice) => old(workflow)@.submit_result(suggestion@) == Ok::<u64, Error>(
                notice.submission,
            ) && notice@ == final(workflow)@.submissions.last(),
            Err(e) => old(workflow)@.submit_result(suggestion@) == Err::<u64, Error>(e),
        },
{
    let text = suggestion.clone();
    let by = author.clone();
    match workflow.submit(kind, suggestion, nsfw, author) {
        Ok(submission) => Ok(Notice { submission, category: kind, text, safety_tag: nsfw, author: by }),
        Err(e) => Err(e),
    }
}

/// A submission that is no longer pending is left alone: every approval
/// and every rejection of it reports that it was already resolved, with the
/// status it has, and changes nothing.
pub proof fn lemma_resolved_is_left_alone(m: ModerationModel, id: u64, status: Status)
    requires
        m.status_of(id) == Some(status),
        status != Status::Pending,
    ensures
        m.approve_result(id) == Ok::<Outcome, Error>(Outcome::AlreadyResolved(status)),
        m.reject_result(id) == Ok::<Outcome, Error>(Outcome::AlreadyResolved(status)),
        m.approve(id) == m,
        m.reject(id) == m,
{
}

/// Approving a pending submission twice writes one prompt, not two. The
/// first approval takes effect; the second reports that the submission was
/// already resolved and leaves store and queue as the first left them.
/// (A store that has used up its identifiers refuses the write: then both
/// approvals fail and the submission stays pending.)
pub proof fn lemma_approve_twice(m: ModerationModel, id: u64)
    requires
        m.inv(),
        m.status_of(id) == Some(Status::Pending),
        !m.store.full(),
    ensures
        m.approve_result(id) == Ok::<Outcome, Error>(Outcome::Approved(m.store.next_id as u64)),
        m.approve(id).approve_result(id) == Ok::<Outcome, Error>(
            Outcome::AlreadyResolved(Status::Approved),
        ),
        m.approve(id).approve(id) == m.approve(id),
        m.approve(id).approve(id).store.prompts == m.store.prompts.push(
            m.prompt_for(m.submissions[m.position(id).unwrap()]),
        ),
{
    let i = m.position(id).unwrap();
    lemma_approve_keeps_inv(m, id);
    lemma_position_is_unique(m.approve(id), id, i);
}

/// Rejecting a pending submission takes effect once: the submission is
/// then rejected, and a later approval writes nothing.
pub proof fn lemma_reject_then_approve(m: ModerationModel, id: u64)
    requires
        m.inv(),
        m.status_of(id) == Some(Status::Pending),
    ensures
        m.reject_result(id) == Ok::<Outcome, Error>(Outcome::Rejected),
        m.reject(id).status_of(id) == Some(Status::Rejected),
        m.reject(id).approve_result(id) == Ok::<Outcome, Error>(
            Outcome::AlreadyResolved(Status::Rejected),
        ),
        m.reject(id).approve(id).store == m.store,
{
    let i = m.position(id).unwrap();
    lemma_reject_keeps_inv(m, id);
    lemma_position_is_unique(m.reject(id), id, i);
}

/// An approval that takes effect writes exactly one prompt: the store
/// grows by one, and the new prompt has the submission's category, text,
/// safety tag and author. The submission is then approved, and no other
/// submission has changed.
pub proof fn lemma_approval_writes_one_prompt(m: ModerationModel, id: u64, prompt_id: u64)
    requires
        m.inv(),
        m.approve_result(id) == Ok::<Outcome, Error>(Outcome::Approved(prompt_id)),
    ensures
        m.status_of(id) == Some(Status::Pending),
        m.approve(id).status_of(id) == Some(Status::Approved),
        m.approve(id).store.prompts.len() == m.store.prompts.len() + 1,
        m.approve(id).store.prompts.drop_last() == m.store.prompts,
        ({
            let s = m.submissions[m.position(id).unwrap()];
            let p = m.approve(id).store.prompts.last();
            &&& p.id == prompt_id
            &&& p.category == s.category
            &&& p.text == s.text
            &&& p.safety_tag == s.safety_tag
            &&& p.author == s.author
        }),
        forall|other: u64| other != id ==> m.approve(id).status_of(other) == m.status_of(other),
{
    let i = m.position(id).unwrap();
    let after = m.approve(id);
    lemma_approve_keeps_inv(m, id);
    lemma_position_is_unique(after, id, i);
    assert(after.store.prompts.drop_last() =~= m.store.prompts);
    assert forall|other: u64| other != id implies after.status_of(other) == m.status_of(
        other,
    ) by {
        lemma_same_ids_same_positions(m, after, other);
    }
}

/// Only an approval that takes effect writes to the store. A rejection
/// never does, whatever it reports; an approval that reports anything but
/// `Approved` leaves the whole workflow as it was, and so does a failed
/// submission. A submission that is taken leaves the store alone.
pub proof fn lemma_store_written_only_on_approval(
    m: ModerationModel,
    id: u64,
    category: SuggestionType,
    text: Seq<char>,
    safety_tag: bool,
    author: Seq<char>,
)
    ensures
        m.reject(id).store == m.store,
        !(m.approve_result(id) matches Ok(Outcome::Approved(_))) ==> m.approve(id) == m,
        !(m.reject_result(id) matches Ok(Outcome::Rejected)) ==> m.reject(id) == m,
        m.submit(category, text, safety_tag, author).store == m.store,
        m.submit_result(text) is Err ==> m.submit(category, text, safety_tag, author) == m,
{
}

/// A status never goes back: whatever is approved, rejected or submitted
/// next, a submission that is no longer pending keeps its status.
pub proof fn lemma_resolution_is_final(
    m: ModerationModel,
    id: u64,
    acted_on: u64,
    category: SuggestionType,
    text: Seq<char>,
    safety_tag: bool,
    author: Seq<char>,
)
    requires
        m.inv(),
        m.status_of(id) is Some,
        m.status_of(id) != Some(Status::Pending),
    ensures
        m.approve(acted_on).status_of(id) == m.status_of(id),
        m.reject(acted_on).status_of(id) == m.status_of(id),
        m.submit(category, text, safety_tag, author).status_of(id) == m.status_of(id),
{
    let i = m.position(id).unwrap();
    lemma_same_ids_same_positions(m, m.approve(acted_on), id);
    lemma_same_ids_same_positions(m, m.reject(acted_on), id);
    let grown = m.submit(category, text, safety_tag, author);
    lemma_submit_keeps_inv(m, category, text, safety_tag, author);
    lemma_position_is_unique(grown, id, i);
}

/// Submissions are never removed and, their status aside, never changed:
/// whatever is approved, rejected or submitted next, every record keeps its
/// place, identifier, category, text, safety tag and author. Prompts are
/// never removed or changed at all.
pub proof fn lemma_records_are_kept(
    m: ModerationModel,
    acted_on: u64,
    category: SuggestionType,
    text: Seq<char>,
    safety_tag: bool,
    author: Seq<char>,
    i: int,
)
    requires
        0 <= i < m.submissions.len(),
    ensures
        ({
            let kept = m.submissions[i];
            let approved = m.approve(acted_on);
            let rejected = m.reject(acted_on);
            let grown = m.submit(category, text, safety_tag, author);
            &&& approved.submissions.len() == m.submissions.len()
            &&& rejected.submissions.len() == m.submissions.len()
            &&& grown.submissions.len() >= m.submissions.len()
            &&& approved.submissions[i].with_status(kept.status) == kept
            &&& rejected.submissions[i].with_status(kept.status) == kept
            &&& grown.submissions[i] == kept
            &&& approved.store.prompts.take(m.store.prompts.len() as int) == m.store.prompts
            &&& rejected.store.prompts == m.store.prompts
            &&& grown.store.prompts == m.store.prompts
        }),
{
    let approved = m.approve(acted_on);
    assert(approved.store.prompts.take(m.store.prompts.len() as int) =~= m.store.prompts);
}

/// A submission that is taken is pending, carries the fields it was
/// submitted with, and is found under the identifier that was returned.
pub proof fn lemma_submission_starts_pending(
    m: ModerationModel,
    category: SuggestionType,
    text: Seq<char>,
    safety_tag: bool,
    author: Seq<char>,
    id: u64,
)
    requires
        m.inv(),
        m.submit_result(text) == Ok::<u64, Error>(id),
    ensures
        !m.has(id),
        ({
            let grown = m.submit(category, text, safety_tag, author);
            &&& grown.position(id) == Some(m.submissions.len() as int)
            &&& grown.submissions.last() == SubmissionModel {
                id: id as int,
                category,
                text,
                safety_tag,
                author,
                status: Status::Pending,
            }
        }),
{
    let grown = m.submit(category, text, safety_tag, author);
    lemma_submit_keeps_inv(m, category, text, safety_tag, author);
    lemma_position_is_unique(grown, id, m.submissions.len() as int);
}

/// One operation on the workflow, as it may arrive from any moderator or
/// submitter at any time.
pub enum Step {
    Submit { category: SuggestionType, text: Seq<char>, safety_tag: bool, author: Seq<char> },
    Insert { category: SuggestionType, text: Seq<char>, safety_tag: bool, author: Seq<char> },
    Approve { id: u64 },
    Reject { id: u64 },
}

impl ModerationModel {
    /// The workflow after one operation.
    pub open spec fn step(self, step: Step) -> ModerationModel {
        match step {
            Step::Submit { category, text, safety_tag, author } => self.submit(
                category,
                text,
                safety_tag,
                author,
            ),
            Step::Insert { category, text, safety_tag, author } => ModerationModel {
                store: self.store.insert(category, text, safety_tag, author),
                ..self
            },
            Step::Approve { id } => self.approve(id),
            Step::Reject { id } => self.reject(id),
        }
    }

    /// The workflow after a series of operations, one after the other.
    pub open spec fn run(self, steps: Seq<Step>) -> ModerationModel
        decreases steps.len(),
    {
        if steps.len() == 0 {
            self
        } else {
            self.run(steps.drop_last()).step(steps.last())
        }
    }
}

/// The invariant survives every series of operations.
pub proof fn lemma_run_keeps_inv(m: ModerationModel, steps: Seq<Step>)
    requires
        m.inv(),
    ensures
        m.run(steps).inv(),
    decreases steps.len(),
{
    if steps.len() > 0 {
        lemma_run_keeps_inv(m, steps.drop_last());
    }
}

/// A resolution outlasts whatever comes between. Once a submission is
/// approved or rejected, then after any series of operations by anyone, in
/// any order, it still has that status, and an approval or rejection of it
/// still reports that it was already resolved and changes nothing. So two
/// moderators who approve the same submission, with anything else going on
/// in between, write one prompt.
pub proof fn lemma_resolution_outlasts_any_run(
    m: ModerationModel,
    id: u64,
    status: Status,
    steps: Seq<Step>,
)
    requires
        m.inv(),
        m.status_of(id) == Some(status),
        status != Status::Pending,
    ensures
        m.run(steps).status_of(id) == Some(status),
        m.run(steps).approve_result(id) == Ok::<Outcome, Error>(Outcome::AlreadyResolved(status)),
        m.run(steps).reject_result(id) == Ok::<Outcome, Error>(Outcome::AlreadyResolved(status)),
        m.run(steps).approve(id) == m.run(steps),
        m.run(steps).reject(id) == m.run(steps),
    decreases steps.len(),
{
    if steps.len() > 0 {
        let before = m.run(steps.drop_last());
        lemma_resolution_outlasts_any_run(m, id, status, steps.drop_last());
        lemma_run_keeps_inv(m, steps.drop_last());
        match steps.last() {
            Step::Submit { category, text, safety_tag, author } => {
                lemma_resolution_is_final(before, id, 0, category, text, safety_tag, author);
            },
            Step::Insert { category, text, safety_tag, author } => {
                let after = before.step(steps.last());
                assert(after.submissions == before.submissions);
                assert(after.position(id) == before.position(id));
            },
            Step::Approve { id: other } => {
                lemma_resolution_is_final(before, id, other, SuggestionType::Truth, seq![], false, seq![]);
            },
            Step::Reject { id: other } => {
                lemma_resolution_is_final(before, id, other, SuggestionType::Truth, seq![], false, seq![]);
            },
        }
    }
    lemma_resolved_is_left_alone(m.run(steps), id, status);
}

/// Prompts outlast every series of operations: what the store held
/// before, it holds after, in the same places.
pub proof fn lemma_prompts_outlast_any_run(m: ModerationModel, steps: Seq<Step>)
    ensures
        m.run(steps).store.prompts.len() >= m.store.prompts.len(),
        m.run(steps).store.prompts.take(m.store.prompts.len() as int) == m.store.prompts,
    decreases steps.len(),
{
    if steps.len() > 0 {
        let before = m.run(steps.drop_last());
        let after = before.step(steps.last());
        lemma_prompts_outlast_any_run(m, steps.drop_last());
        assert(after.store.prompts.take(before.store.prompts.len() as int) =~= before.store.prompts);
        assert(after.store.prompts.take(m.store.prompts.len() as int) =~= before.store.prompts.take(
            m.store.prompts.len() as int,
        ));
    } else {
        assert(m.store.prompts.take(m.store.prompts.len() as int) =~= m.store.prompts);
    }
}

/// The invariant survives a submission.
pub proof fn lemma_submit_keeps_inv(
    m: ModerationModel,
    category: SuggestionType,
    text: Seq<char>,
    safety_tag: bool,
    author: Seq<char>,
)
    requires
        m.inv(),
    ensures
        m.submit(category, text, safety_tag, author).inv(),
{
}

/// The invariant survives an approval.
pub proof fn lemma_approve_keeps_inv(m: ModerationModel, id: u64)
    requires
        m.inv(),
    ensures
        m.approve(id).inv(),
{
}

/// The invariant survives a rejection.
pub proof fn lemma_reject_keeps_inv(m: ModerationModel, id: u64)
    requires
        m.inv(),
    ensures
        m.reject(id).inv(),
{
}

/// Two well-formed queues that hold the same identifiers at the same
/// places find every identifier at the same place.
proof fn lemma_same_ids_same_positions(a: ModerationModel, b: ModerationModel, id: u64)
    requires
        a.inv(),
        b.submissions.len() == a.submissions.len(),
        forall|i: int|
            0 <= i < a.submissions.len() ==> (#[trigger] b.submissions[i]).id == a.submissions[i].id,
        b.next_id == a.next_id,
        forall|i: int|
            0 <= i < a.submissions.len() ==> (#[trigger] b.submissions[i]).text.len() > 0,
        b.store.inv(),
    ensures
        b.position(id) == a.position(id),
        a.position(id) is Some ==> 0 <= a.position(id).unwrap() < a.submissions.len(),
{
    assert(b.inv());
    if a.has(id) {
        let i = a.position(id).unwrap();
        assert(b.submissions[i].id == id);
        lemma_position_is_unique(b, id, i);
    } else if b.has(id) {
        let j = b.position(id).unwrap();
        assert(a.submissions[j].id == id);
    }
}

} // verus!
