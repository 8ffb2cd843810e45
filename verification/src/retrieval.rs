//! The retrieval service: a random prompt for the place that asks.
//!
//! Whoever asks does not choose the safety tag. It follows from the
//! surface on which the request was made, so that restricted content is
//! never served where the surface is not marked for it.

use vstd::prelude::*;
use crate::model::{Error, Missing, Prompt, PromptModel, SuggestionType};
use crate::store::{ContentStore, StoreModel, lemma_selection_matches_request};

verus! {

/// The surface on which a request was made. `age_restricted` is what the
/// surface declares of its audience, where it declares anything.
#[derive(Clone, Copy, Debug, PartialEq, Eq)]
pub struct Context {
    pub age_restricted: Option<bool>,
}

impl Context {
    /// The safety tag of the prompts that may be served here: true only
    /// where the surface is explicitly marked.
    pub open spec fn tag(self) -> bool {
        self.age_restricted == Some(true)
    }

    /// The safety tag of the prompts that may be served here.
    pub fn safety_tag(&self) -> (r: bool)
        ensures
            r == self.tag(),
    {
        match self.age_restricted {
            Some(marked) => marked,
            None => false,
        }
    }
}

/// What the service answers: the store's selection for the category and
/// the context's safety tag.
pub open spec fn serve_model(
    store: StoreModel,
    category: SuggestionType,
    context: Context,
    draw: u64,
) -> Result<PromptModel, Error> {
    store.random(category, context.tag(), draw)
}

/// Serves a random prompt of a category for a context. The caller
/// supplies the draw.
pub fn serve(store: &ContentStore, category: SuggestionType, context: &Context, draw: u64) -> (r:
    Result<Prompt, Error>)
    ensures
        match r {
            Ok(p) => serve_model(store@, category, *context, draw) == Ok::<PromptModel, Error>(p@),
            Err(e) => serve_model(store@, category, *context, draw) == Err::<PromptModel, Error>(e),
        },
{
    store.random(category, context.safety_tag(), draw)
}

/// What is served fits the audience: a served prompt is in the store, has
/// the category that was asked for, and carries the safety tag exactly
/// where the context is marked. On a surface that is not marked, no prompt
/// with the safety tag is ever served. The only failure is that the store
/// has no such prompt.
pub proof fn lemma_served_prompt_fits_audience(
    store: StoreModel,
    category: SuggestionType,
    context: Context,
    draw: u64,
)
    ensures
        match serve_model(store, category, context, draw) {
            Ok(p) => {
                &&& store.prompts.contains(p)
                &&& p.category == category
                &&& p.safety_tag == context.tag()
                &&& context.age_restricted != Some(true) ==> !p.safety_tag
            },
            Err(e) => e == Error::NotFound(Missing::Prompt(category)),
        },
{
    lemma_selection_matches_request(store, category, context.tag(), draw);
}

} // verus!
