//! The records exchanged with the Hacker News item graph.

use vstd::prelude::*;

verus! {

/// A story as the item endpoint describes it.
#[derive(Debug, Clone, PartialEq, Eq)]
pub struct StoryItem {
    /// The item's identifier.
    pub id: i64,
    /// The headline.
    pub title: String,
    /// The name of the submitter.
    pub by: String,
    /// The story's points.
    pub score: i64,
    /// When the story was submitted, in seconds since the Unix epoch.
    pub time: i64,
    /// The page the story links to, if it links to one.
    pub url: Option<String>,
    /// The identifiers of the top-level comments, in display order.
    pub kids: Vec<i64>,
}

/// A comment as the item endpoint describes it.
#[derive(Debug, Clone, PartialEq, Eq)]
pub struct Comment {
    /// The item's identifier.
    pub id: i64,
    /// The name of the commenter.
    pub by: String,
    /// The body of the comment.
    pub text: String,
    /// The item this comment replies to, if known.
    pub parent: Option<i64>,
}

/// A story together with those of its top-level comments that could be fetched.
#[derive(Debug, Clone, PartialEq, Eq)]
pub struct StoryData {
    /// The story.
    pub item: StoryItem,
    /// The fetched comments, in the order of `item.kids`.
    pub comments: Vec<Comment>,
}

/// The one way a fetch can go wrong: it produced no usable value.
///
/// Transport errors, unsuccessful statuses and bodies that do not decode are
/// not told apart; `reason` is free text for a human reader.
#[derive(Debug, Clone, PartialEq, Eq)]
pub struct FetchError {
    /// What the transport or the decoder reported.
    pub reason: String,
}

} // verus!
