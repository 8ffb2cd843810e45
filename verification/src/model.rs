//! The vocabulary shared by every component: categories, prompts, errors.

use vstd::prelude::*;

verus! {

/// The two kinds of prompt that can be suggested and served.
#[derive(Clone, Copy, Debug, PartialEq, Eq, Structural)]
pub enum SuggestionType {
    Truth,
    Dare,
}

/// The display name of a category.
pub open spec fn name_of(category: SuggestionType) -> Seq<char> {
    match category {
        SuggestionType::Truth => "Truth"@,
        SuggestionType::Dare => "Dare"@,
    }
}

/// The storage partition that holds a category's prompts.
pub open spec fn partition_of(category: SuggestionType) -> Seq<char> {
    match category {
        SuggestionType::Truth => "questions"@,
        SuggestionType::Dare => "dares"@,
    }
}

/// The category that a display name stands for, if any.
pub open spec fn category_named(name: Seq<char>) -> Option<SuggestionType> {
    if name == "Truth"@ {
        Some(SuggestionType::Truth)
    } else if name == "Dare"@ {
        Some(SuggestionType::Dare)
    } else {
        None
    }
}

impl SuggestionType {
    /// The display name, as shown to users and written to the queue.
    pub fn name(&self) -> (r: &'static str)
        ensures
            r@ == name_of(*self),
    {
        match self {
            SuggestionType::Truth => "Truth",
            SuggestionType::Dare => "Dare",
        }
    }

    /// The key of the partition in which prompts of this category are kept.
    /// The key is one of two constants: no caller-supplied text reaches it.
    pub fn partition(&self) -> (r: &'static str)
        ensures
            r@ == partition_of(*self),
    {
        match self {
            SuggestionType::Truth => "questions",
            SuggestionType::Dare => "dares",
        }
    }

    /// Reads a category from its display name. Any other text is a
    /// validation failure.
    pub fn from_name(name: &str) -> (r: Result<SuggestionType, Error>)
        ensures
            r == match category_named(name@) {
                Some(c) => Ok::<SuggestionType, Error>(c),
                None => Err(Error::Validation(Invalid::UnknownCategory)),
            },
    {
        let owned = name.to_owned();
        if owned == "Truth".to_owned() {
            Ok(SuggestionType::Truth)
        } else if owned == "Dare".to_owned() {
            Ok(SuggestionType::Dare)
        } else {
            Err(Error::Validation(Invalid::UnknownCategory))
        }
    }
}

/// Every category is read back from its own display name.
pub proof fn lemma_name_round_trip(category: SuggestionType)
    ensures
        category_named(name_of(category)) == Some(category),
{
    reveal_strlit("Truth");
    reveal_strlit("Dare");
    if category == SuggestionType::Dare {
        assert("Dare"@.len() != "Truth"@.len());
    }
}

/// What was wrong with a caller's input.
#[derive(Clone, Copy, Debug, PartialEq, Eq, Structural)]
pub enum Invalid {
    /// The text of a prompt or submission was empty.
    EmptyText,
    /// A category name was neither of the two known ones.
    UnknownCategory,
}

/// What was looked for and not found.
#[derive(Clone, Copy, Debug, PartialEq, Eq, Structural)]
pub enum Missing {
    /// No prompt of this category matches the requested safety tag.
    Prompt(SuggestionType),
    /// No submission carries this identifier.
    Submission(u64),
}

/// The failures that an operation reports. None of them is fatal.
#[derive(Clone, Copy, Debug, PartialEq, Eq, Structural)]
pub enum Error {
    /// The input was rejected before anything was changed.
    Validation(Invalid),
    /// Nothing matches the request.
    NotFound(Missing),
    /// An access predicate was false; the operation did not run.
    Authorization,
    /// The backing collection could not take the write; nothing changed.
    Storage,
    /// The directory could not be consulted.
    Directory,
}

/// The mathematical content of a prompt.
pub struct PromptModel {
    pub id: int,
    pub category: SuggestionType,
    pub text: Seq<char>,
    pub safety_tag: bool,
    pub author: Seq<char>,
}

/// An approved, servable entry. `safety_tag` is true for content meant
/// for a restricted audience only.
#[derive(Debug, PartialEq, Eq)]
pub struct Prompt {
    pub id: u64,
    pub category: SuggestionType,
    pub text: String,
    pub safety_tag: bool,
    pub author: String,
}

impl View for Prompt {
    type V = PromptModel;

    open spec fn view(&self) -> PromptModel {
        PromptModel {
            id: self.id as int,
            category: self.category,
            text: self.text@,
            safety_tag: self.safety_tag,
            author: self.author@,
        }
    }
}

impl Clone for Prompt {
    fn clone(&self) -> (r: Prompt)
        ensures
            r@ == self@,
    {
        Prompt {
            id: self.id,
            category: self.category,
            text: self.text.clone(),
            safety_tag: self.safety_tag,
            author: self.author.clone(),
        }
    }
}

} // verus!
