//! The content store: the pool of approved prompts.
//!
//! Prompts are only ever added. Identifiers are handed out in increasing
//! order, and a prompt is never changed once it is in the pool.

use vstd::prelude::*;
use crate::model::{Error, Invalid, Missing, Prompt, PromptModel, SuggestionType};

verus! {

/// Whether a prompt belongs to a category and carries a safety tag.
pub open spec fn wanted(category: SuggestionType, safety_tag: bool) -> spec_fn(PromptModel) -> bool {
    |p: PromptModel| p.category == category && p.safety_tag == safety_tag
}

/// The mathematical content of the store: its prompts in order of
/// insertion, and the identifier that the next prompt will get.
pub struct StoreModel {
    pub prompts: Seq<PromptModel>,
    pub next_id: int,
}

impl StoreModel {
    /// Identifiers are positive, strictly increasing and below `next_id`;
    /// no prompt has an empty text.
    pub open spec fn inv(self) -> bool {
        &&& 1 <= self.next_id <= u64::MAX
        &&& forall|i: int|
            0 <= i < self.prompts.len() ==> {
                &&& 0 < (#[trigger] self.prompts[i]).id < self.next_id
                &&& self.prompts[i].text.len() > 0
            }
        &&& forall|i: int, j: int|
            0 <= i < j < self.prompts.len() ==> (#[trigger] self.prompts[i]).id < (
            #[trigger] self.prompts[j]).id
    }

    /// The store with nothing in it.
    pub open spec fn empty() -> StoreModel {
        StoreModel { prompts: Seq::empty(), next_id: 1 }
    }

    /// The store that a list of stored prompts stands for: the prompts as
    /// they are, and the identifier after the last one as the next.
    pub open spec fn loaded(rows: Seq<PromptModel>) -> StoreModel {
        StoreModel {
            prompts: rows,
            next_id: if rows.len() == 0 {
                1
            } else {
                rows.last().id + 1
            },
        }
    }

    /// No identifier is left to hand out.
    pub open spec fn full(self) -> bool {
        self.next_id >= u64::MAX
    }

    /// The prompt that an insertion would add.
    pub open spec fn fresh(
        self,
        category: SuggestionType,
        text: Seq<char>,
        safety_tag: bool,
        author: Seq<char>,
    ) -> PromptModel {
        PromptModel { id: self.next_id, category, text, safety_tag, author }
    }

    /// The outcome of an insertion, decided before anything is written.
    pub open spec fn insert_result(self, text: Seq<char>) -> Result<u64, Error> {
        if text.len() == 0 {
            Err(Error::Validation(Invalid::EmptyText))
        } else if self.full() {
            Err(Error::Storage)
        } else {
            Ok(self.next_id as u64)
        }
    }

    /// The store after an insertion: one prompt longer where the insertion
    /// succeeds, unchanged where it fails.
    pub open spec fn insert(
        self,
        category: SuggestionType,
        text: Seq<char>,
        safety_tag: bool,
        author: Seq<char>,
    ) -> StoreModel {
        if self.insert_result(text).is_ok() {
            StoreModel {
                prompts: self.prompts.push(self.fresh(category, text, safety_tag, author)),
                next_id: self.next_id + 1,
            }
        } else {
            self
        }
    }

    /// The prompts of a category that carry a safety tag, in order of
    /// insertion.
    pub open spec fn candidates(self, category: SuggestionType, safety_tag: bool) -> Seq<
        PromptModel,
    > {
        self.prompts.filter(wanted(category, safety_tag))
    }

    /// The prompt that a draw selects: the candidates are numbered from
    /// zero, and the draw is reduced modulo their count.
    pub open spec fn random(self, category: SuggestionType, safety_tag: bool, draw: u64) -> Result<
        PromptModel,
        Error,
    > {
        let pool = self.candidates(category, safety_tag);
        if pool.len() == 0 {
            Err(Error::NotFound(Missing::Prompt(category)))
        } else {
            Ok(pool[draw as int % pool.len() as int])
        }
    }
}

/// Whether a raw draw may be used to select among `count` candidates
/// without favouring any of them. The draws are cut into runs of `count`,
/// starting at zero; a draw is usable if its whole run fits below 2^64.
pub open spec fn unbiased(count: int, raw: u64) -> bool {
    count > 0 && raw - raw as int % count + count - 1 <= u64::MAX
}

/// Decides whether a raw draw is usable for `count` candidates. A caller
/// that draws again until this holds selects every candidate with the same
/// probability.
pub fn is_unbiased(count: usize, raw: u64) -> (r: bool)
    ensures
        r == unbiased(count as int, raw),
{
    if count == 0 {
        return false;
    }
    let n = count as u64;
    assert(raw % n <= raw) by (nonlinear_arith)
        requires
            n > 0,
    ;
    let start = raw - raw % n;
    start <= u64::MAX - (n - 1)
}

/// Filtering a sequence that grew by one element: the element joins the
/// result exactly when it is wanted.
pub proof fn lemma_filter_push(s: Seq<PromptModel>, p: PromptModel, keep: spec_fn(PromptModel) -> bool)
    ensures
        s.push(p).filter(keep) == if keep(p) {
            s.filter(keep).push(p)
        } else {
            s.filter(keep)
        },
{
    reveal(Seq::filter);
    assert(s.push(p).drop_last() =~= s);
}

/// Where no prompt matches a category and safety tag, the selection fails
/// and names that category, whatever the draw. After one successful
/// insertion of a matching prompt the selection succeeds, whatever the
/// draw, and returns the prompt that was inserted.
pub proof fn lemma_first_match_is_selected(
    s: StoreModel,
    category: SuggestionType,
    safety_tag: bool,
    text: Seq<char>,
    author: Seq<char>,
    draw: u64,
)
    requires
        s.candidates(category, safety_tag).len() == 0,
        s.insert_result(text).is_ok(),
    ensures
        s.random(category, safety_tag, draw) == Err::<PromptModel, Error>(
            Error::NotFound(Missing::Prompt(category)),
        ),
        s.insert(category, text, safety_tag, author).random(category, safety_tag, draw) == Ok::<
            PromptModel,
            Error,
        >(s.fresh(category, text, safety_tag, author)),
{
    let p = s.fresh(category, text, safety_tag, author);
    lemma_filter_push(s.prompts, p, wanted(category, safety_tag));
    let pool = s.insert(category, text, safety_tag, author).candidates(category, safety_tag);
    assert(pool.len() == 1);
    assert(draw as int % 1 == 0);
}

/// An insertion leaves the candidates of every other category or safety
/// tag as they were, and appends the new prompt to those of its own.
pub proof fn lemma_insert_extends_one_pool(
    s: StoreModel,
    category: SuggestionType,
    safety_tag: bool,
    text: Seq<char>,
    author: Seq<char>,
    other: SuggestionType,
    other_tag: bool,
)
    requires
        s.insert_result(text).is_ok(),
    ensures
        s.insert(category, text, safety_tag, author).candidates(other, other_tag) == if other
            == category && other_tag == safety_tag {
            s.candidates(other, other_tag).push(s.fresh(category, text, safety_tag, author))
        } else {
            s.candidates(other, other_tag)
        },
{
    lemma_filter_push(
        s.prompts,
        s.fresh(category, text, safety_tag, author),
        wanted(other, other_tag),
    );
}

/// Prompts are never changed and never removed: after an insertion,
/// whether it succeeded or not, the prompts that were there are still
/// there, in their places, and at most one has been added.
pub proof fn lemma_prompts_are_kept(
    s: StoreModel,
    category: SuggestionType,
    text: Seq<char>,
    safety_tag: bool,
    author: Seq<char>,
)
    ensures
        ({
            let after = s.insert(category, text, safety_tag, author);
            &&& after.prompts.take(s.prompts.len() as int) == s.prompts
            &&& s.prompts.len() <= after.prompts.len() <= s.prompts.len() + 1
            &&& after.next_id >= s.next_id
        }),
{
    let after = s.insert(category, text, safety_tag, author);
    assert(after.prompts.take(s.prompts.len() as int) =~= s.prompts);
}

/// An insertion keeps the invariant.
pub proof fn lemma_insert_keeps_inv(
    s: StoreModel,
    category: SuggestionType,
    text: Seq<char>,
    safety_tag: bool,
    author: Seq<char>,
)
    requires
        s.inv(),
    ensures
        s.insert(category, text, safety_tag, author).inv(),
{
}

/// A selected prompt is one of the store's prompts, of the category and
/// with the safety tag that were asked for; the selection fails only where
/// the store holds no such prompt.
pub proof fn lemma_selection_matches_request(
    s: StoreModel,
    category: SuggestionType,
    safety_tag: bool,
    draw: u64,
)
    ensures
        match s.random(category, safety_tag, draw) {
            Ok(p) => p.category == category && p.safety_tag == safety_tag && s.prompts.contains(p),
            Err(e) => e == Error::NotFound(Missing::Prompt(category)) && forall|i: int|
                0 <= i < s.prompts.len() ==> !wanted(category, safety_tag)(#[trigger] s.prompts[i]),
        },
{
    broadcast use vstd::seq_lib::group_filter_ensures;

    let keep = wanted(category, safety_tag);
    let pool = s.prompts.filter(keep);
    if pool.len() > 0 {
        let k = draw as int % pool.len() as int;
        assert(keep(pool[k]));
        assert(pool.contains(pool[k]));
        s.prompts.lemma_filter_contains_rev(keep, pool[k]);
    } else {
        assert forall|i: int| 0 <= i < s.prompts.len() implies !keep(#[trigger] s.prompts[i]) by {
            if keep(s.prompts[i]) {
                assert(s.prompts.contains(s.prompts[i]));
                assert(pool.contains(s.prompts[i]));
            }
        }
    }
}

/// Every run of consecutive draws that starts at a multiple of the number
/// of candidates, and is as long as that number, selects each candidate
/// exactly once, in order: no candidate is left out, and none is favoured
/// by its place.
pub proof fn lemma_draws_cover_candidates_evenly(
    s: StoreModel,
    category: SuggestionType,
    safety_tag: bool,
    start: u64,
    k: int,
)
    requires
        0 <= k < s.candidates(category, safety_tag).len(),
        start as int % s.candidates(category, safety_tag).len() as int == 0,
        start + k <= u64::MAX,
    ensures
        s.random(category, safety_tag, (start + k) as u64) == Ok::<PromptModel, Error>(
            s.candidates(category, safety_tag)[k],
        ),
{
    let n = s.candidates(category, safety_tag).len() as int;
    let b = start as int;
    assert((b + k) % n == k) by (nonlinear_arith)
        requires
            0 <= k < n,
            b % n == 0,
            0 <= b,
    ;
}

/// The usable draws favour no candidate. The run of a usable draw holds
/// only usable draws, is as long as the number of candidates, and selects
/// each candidate exactly once: the `k`-th draw of the run selects the
/// `k`-th candidate.
pub proof fn lemma_unbiased_draws_are_fair(
    s: StoreModel,
    category: SuggestionType,
    safety_tag: bool,
    raw: u64,
    k: int,
)
    requires
        unbiased(s.candidates(category, safety_tag).len() as int, raw),
        0 <= k < s.candidates(category, safety_tag).len(),
    ensures
        ({
            let n = s.candidates(category, safety_tag).len() as int;
            let start = raw - raw as int % n;
            &&& 0 <= start <= raw < start + n
            &&& start + k <= u64::MAX
            &&& unbiased(n, (start + k) as u64)
            &&& s.random(category, safety_tag, (start + k) as u64) == Ok::<PromptModel, Error>(
                s.candidates(category, safety_tag)[k],
            )
        }),
{
    let n = s.candidates(category, safety_tag).len() as int;
    let r = raw as int;
    let start = r - r % n;
    assert(0 <= r % n < n && start % n == 0 && start >= 0) by (nonlinear_arith)
        requires
            n > 0,
            r >= 0,
            start == r - r % n,
    ;
    assert((start + k) % n == k) by (nonlinear_arith)
        requires
            0 <= k < n,
            start % n == 0,
            0 <= start,
    ;
    lemma_draws_cover_candidates_evenly(s, category, safety_tag, start as u64, k);
}

/// The mathematical content of a list of prompts.
pub open spec fn prompt_models(rows: Seq<Prompt>) -> Seq<PromptModel> {
    Seq::new(rows.len(), |i: int| rows[i]@)
}

/// The pool of approved prompts.
pub struct ContentStore {
    prompts: Vec<Prompt>,
    next_id: u64,
}

impl View for ContentStore {
    type V = StoreModel;

    closed spec fn view(&self) -> StoreModel {
        StoreModel {
            prompts: prompt_models(self.prompts@),
            next_id: self.next_id as int,
        }
    }
}

impl ContentStore {
    /// The store's invariant holds.
    pub open spec fn wf(&self) -> bool {
        self@.inv()
    }

    /// An empty store. The first prompt will get the identifier 1.
    pub fn new() -> (r: ContentStore)
        ensures
            r.wf(),
            r@ == StoreModel::empty(),
    {
        let r = ContentStore { prompts: Vec::new(), next_id: 1 };
        assert(r@.prompts =~= Seq::empty());
        r
    }

    /// Rebuilds a store from prompts that were stored before, in order of
    /// insertion. The rows are taken only if they could have come from a
    /// store: identifiers positive and strictly increasing with room for
    /// one more, and no empty text. Otherwise the result is `None`.
    pub fn restore(rows: Vec<Prompt>) -> (r: Option<ContentStore>)
        ensures
            match r {
                Some(store) => store.wf() && store@ == StoreModel::loaded(prompt_models(rows@)),
                None => !StoreModel::loaded(prompt_models(rows@)).inv(),
            },
    {
        let ghost all = prompt_models(rows@);
        let ghost target = StoreModel::loaded(all);
        let mut last: u64 = 0;
        let mut i: usize = 0;
        while i < rows.len()
            invariant
                0 <= i <= rows.len(),
                all == prompt_models(rows@),
                target == StoreModel::loaded(all),
                last < u64::MAX,
                i == 0 ==> last == 0,
                i > 0 ==> last == all[i - 1].id,
                forall|j: int| 0 <= j < i ==> 0 < (#[trigger] all[j]).id <= last && all[j].text.len() > 0,
                forall|j: int, k: int| 0 <= j < k < i ==> (#[trigger] all[j]).id < (#[trigger] all[k]).id,
            decreases rows.len() - i,
        {
            let row = &rows[i];
            assert(all[i as int] == row@);
            if row.text.as_str().is_empty() || row.id <= last || row.id == u64::MAX {
                proof {
                    if target.inv() {
                        let n = all.len() - 1;
                        if i > 0 {
                            assert(all[i - 1].id < all[i as int].id);
                        }
                        if i < n {
                            assert(all[i as int].id < all[n].id);
                        }
                        assert(all[i as int].id < target.next_id);
                    }
                }
                return None;
            }
            last = row.id;
            i = i + 1;
        }
        let store = ContentStore { prompts: rows, next_id: last + 1 };
        assert(store@.prompts =~= all);
        Some(store)
    }

    /// The number of prompts in the store.
    pub fn len(&self) -> (n: usize)
        ensures
            n == self@.prompts.len(),
    {
        self.prompts.len()
    }

    /// The prompt at a position, in order of insertion.
    pub fn get(&self, index: usize) -> (r: Option<&Prompt>)
        ensures
            match r {
                Some(p) => index < self@.prompts.len() && p@ == self@.prompts[index as int],
                None => index >= self@.prompts.len(),
            },
    {
        if index < self.prompts.len() {
            Some(&self.prompts[index])
        } else {
            None
        }
    }

    /// Adds a prompt and returns its identifier. An empty text is refused,
    /// and so is any insertion once the identifiers are used up; in both
    /// cases the store stays as it was.
    pub fn insert(
        &mut self,
        category: SuggestionType,
        text: String,
        safety_tag: bool,
        author: String,
    ) -> (r: Result<u64, Error>)
        requires
            old(self).wf(),
        ensures
            final(self).wf(),
            r == old(self)@.insert_result(text@),
            final(self)@ == old(self)@.insert(category, text@, safety_tag, author@),
    {
        if text.as_str().is_empty() {
            return Err(Error::Validation(Invalid::EmptyText));
        }
        if self.next_id == u64::MAX {
            return Err(Error::Storage);
        }
        let id = self.next_id;
        self.prompts.push(Prompt { id, category, text, safety_tag, author });
        self.next_id = id + 1;
        proof {
            let before = old(self)@;
            assert(final(self)@.prompts =~= before.prompts.push(
                before.fresh(category, text@, safety_tag, author@),
            ));
        }
        Ok(id)
    }

    /// The positions of the prompts of a category that carry a safety tag.
    fn positions(&self, category: SuggestionType, safety_tag: bool) -> (hits: Vec<usize>)
        ensures
            hits@.len() == self@.candidates(category, safety_tag).len(),
            forall|k: int|
                0 <= k < hits@.len() ==> 0 <= #[trigger] hits@[k] < self@.prompts.len()
                    && self@.prompts[hits@[k] as int] == self@.candidates(category, safety_tag)[k],
    {
        let mut hits: Vec<usize> = Vec::new();
        let mut i: usize = 0;
        let ghost all = self@.prompts;
        let ghost keep = wanted(category, safety_tag);
        proof {
            reveal(Seq::filter);
            assert(all.take(0) =~= Seq::empty());
        }
        while i < self.prompts.len()
            invariant
                0 <= i <= self.prompts.len(),
                all == self@.prompts,
                all.len() == self.prompts.len(),
                keep == wanted(category, safety_tag),
                hits@.len() == all.take(i as int).filter(keep).len(),
                forall|k: int|
                    0 <= k < hits@.len() ==> 0 <= #[trigger] hits@[k] < i && all[hits@[k] as int]
                        == all.take(i as int).filter(keep)[k],
            decreases self.prompts.len() - i,
        {
            let p = &self.prompts[i];
            proof {
                assert(all.take(i as int + 1) =~= all.take(i as int).push(all[i as int]));
                lemma_filter_push(all.take(i as int), all[i as int], keep);
                assert(all[i as int] == p@);
            }
            if p.category == category && p.safety_tag == safety_tag {
                hits.push(i);
            }
            i = i + 1;
        }
        proof {
            assert(all.take(i as int) =~= all);
        }
        hits
    }

    /// The number of prompts of a category that carry a safety tag.
    pub fn count(&self, category: SuggestionType, safety_tag: bool) -> (n: usize)
        ensures
            n == self@.candidates(category, safety_tag).len(),
    {
        self.positions(category, safety_tag).len()
    }

    /// Selects one prompt among those of a category that carry a safety
    /// tag. The caller supplies the random draw; the candidate whose number
    /// is the draw modulo the count of candidates is returned. With no
    /// candidate the call fails and names the category.
    pub fn random(&self, category: SuggestionType, safety_tag: bool, draw: u64) -> (r: Result<
        Prompt,
        Error,
    >)
        ensures
            match r {
                Ok(p) => self@.random(category, safety_tag, draw) == Ok::<PromptModel, Error>(p@),
                Err(e) => self@.random(category, safety_tag, draw) == Err::<PromptModel, Error>(e),
            },
    {
        let hits = self.positions(category, safety_tag);
        let n = hits.len();
        if n == 0 {
            return Err(Error::NotFound(Missing::Prompt(category)));
        }
        let k = (draw % (n as u64)) as usize;
        Ok(self.prompts[hits[k]].clone())
    }
}

} // verus!
