//! The decision-making core of a Hacker News reader.
//!
//! Nothing in this crate touches the network. Each operation is described as a
//! value that says which URLs to fetch; the caller performs the fetches, however
//! it likes, and hands the outcomes back. What is requested, what is kept and in
//! which order it is returned is decided here, and proved.
//!
//! A listing of top stories runs like this:
//!
//! 1. [`get_top_stories`] clamps the count and yields a [`TopStories`];
//! 2. the caller performs [`TopStories::request`] and passes the answer to
//!    [`TopStories::on_listing`], which opens a [`Batch`] of stories;
//! 3. the caller performs [`Batch::requests`], all at once if it likes, and
//!    reports the outcomes with [`Batch::record`] or [`Batch::record_all`];
//! 4. [`Batch::finish`] returns the stories that came back, in listing order.
//!
//! [`get_story_comments`] opens the same kind of batch over the children of a
//! story. [`get_story_item_by_id`] and [`get_comment_by_id`] are single requests.

pub mod api;
pub mod batch;
pub mod endpoint;
pub mod model;
pub mod schedule;

pub use api::{
    get_comment_by_id, get_story_comments, get_story_item_by_id, get_top_stories, StoryComments,
    TopStories, MAX_STORIES,
};
pub use batch::{Batch, Entry, Slot};
pub use endpoint::Request;
pub use model::{Comment, FetchError, StoryData, StoryItem};
