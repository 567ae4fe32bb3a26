//! The four operations of the reader, each as the request or the bookkeeping
//! that the caller drives to its result.

use vstd::prelude::*;

use crate::batch::{
    complete, fresh, ids_of, lemma_successes_len, successes, Batch, Entry,
};
use crate::endpoint::{item_request, item_url_text, top_stories_request, top_stories_url_text, Request};
use crate::model::{Comment, FetchError, StoryData, StoryItem};
use crate::schedule::{
    fetched, lemma_batch_resolves, lemma_fetched_all, replayed, schedule_of, Report,
};

verus! {

/// The most stories that one listing will ever fetch.
pub const MAX_STORIES: usize = 50;

/// The number of stories fetched when `n` are asked for: `n`, but at most
/// `MAX_STORIES`.
pub open spec fn clamped(n: nat) -> nat {
    if n < MAX_STORIES {
        n
    } else {
        MAX_STORIES as nat
    }
}

/// The identifiers fetched out of `listing` under `limit`: the first `limit`
/// of them, or all of them where the listing is shorter.
pub open spec fn selected(limit: nat, listing: Seq<i64>) -> Seq<i64> {
    if limit < listing.len() {
        listing.take(limit as int)
    } else {
        listing
    }
}

/// A listing of top stories that waits for the list of identifiers.
#[derive(Debug)]
pub struct TopStories {
    limit: usize,
}

impl View for TopStories {
    type V = nat;

    /// The number of stories that the listing will fetch at most.
    closed spec fn view(&self) -> nat {
        self.limit as nat
    }
}

impl TopStories {
    /// The number of stories that the listing will fetch at most.
    pub fn limit(&self) -> (limit: usize)
        ensures
            limit == self@,
    {
        self.limit
    }

    /// The request whose answer is the ordered list of top story identifiers.
    pub fn request(&self) -> (request: Request)
        ensures
            request.url@ == top_stories_url_text(),
    {
        top_stories_request()
    }

    /// Takes the answer to [`TopStories::request`].
    ///
    /// A failed listing fails the whole operation with the same error. A listing
    /// opens the batch of stories to fetch: its first `limit` identifiers in
    /// their order, or all of them if there are fewer.
    pub fn on_listing(self, listing: Result<Vec<i64>, FetchError>) -> (next: Result<
        Batch<StoryItem>,
        FetchError,
    >)
        ensures
            listing is Ok ==> next is Ok && next->Ok_0@ == fresh::<StoryItem>(
                selected(self@, listing->Ok_0@),
            ),
            listing is Ok ==> ids_of(next->Ok_0@) == selected(self@, listing->Ok_0@),
            listing is Err ==> next is Err && next->Err_0 == listing->Err_0,
    {
        match listing {
            Ok(ids) => {
                let mut ids = ids;
                ids.truncate(self.limit);
                Ok(Batch::new(&ids))
            },
            Err(error) => Err(error),
        }
    }
}

/// Begins a listing of the top `n` stories; `n` is clamped to `MAX_STORIES`
/// before anything is requested.
pub fn get_top_stories(n: usize) -> (listing: TopStories)
    ensures
        listing@ == clamped(n as nat),
{
    TopStories { limit: if n < MAX_STORIES { n } else { MAX_STORIES } }
}

/// The request whose answer, decoded as a story, is the story `id`.
pub fn get_story_item_by_id(id: i64) -> (request: Request)
    ensures
        request.url@ == item_url_text(id as int),
{
    item_request(id)
}

/// The request whose answer, decoded as a comment, is the comment `id`.
pub fn get_comment_by_id(id: i64) -> (request: Request)
    ensures
        request.url@ == item_url_text(id as int),
{
    item_request(id)
}

/// A story whose top-level comments are being fetched.
#[derive(Debug)]
pub struct StoryComments {
    /// The story.
    pub item: StoryItem,
    /// The fetches of its comments, one position per child identifier.
    pub comments: Batch<Comment>,
}

impl StoryComments {
    /// Pairs the story with the comments that were fetched, in the order of
    /// the story's child identifiers, or returns `None` while a fetch is out.
    pub fn finish(self) -> (data: Option<StoryData>)
        ensures
            complete(self.comments@) ==> data is Some && data->0.item == self.item
                && data->0.comments@ == successes(self.comments@),
            !complete(self.comments@) ==> data is None,
    {
        match self.comments.finish() {
            Some(comments) => Some(StoryData { item: self.item, comments }),
            None => None,
        }
    }
}

/// Begins the retrieval of the top-level comments of `item`: one fetch per
/// child identifier, and none for the comments' own children.
pub fn get_story_comments(item: StoryItem) -> (story: StoryComments)
    ensures
        story.item == item,
        story.comments@ == fresh::<Comment>(item.kids@),
{
    let comments = Batch::new(&item.kids);
    StoryComments { item, comments }
}

/// However many stories are asked for and whatever the fetches come back
/// with, a listing yields no more stories than were asked for, no more than
/// `MAX_STORIES`, and no more than the upstream list holds. `entries` is any
/// state of the batch that [`TopStories::on_listing`] opens for `listing`.
pub proof fn lemma_listing_is_bounded(n: usize, listing: Seq<i64>, entries: Seq<Entry<StoryItem>>)
    requires
        ids_of(entries) == selected(clamped(n as nat), listing),
    ensures
        successes(entries).len() <= n,
        successes(entries).len() <= MAX_STORIES,
        successes(entries).len() <= listing.len(),
{
    lemma_successes_len(entries);
    assert(entries.len() == ids_of(entries).len());
}

/// A listing as a whole: once every story fetch has come back, in whatever
/// order, the listing yields the stories that the backend has for the first
/// `n` identifiers of `listing`, at most `MAX_STORIES` of them, in the order
/// of `listing`. If none of these fetches fails, it yields one story for each
/// of these identifiers, which are all of `listing` if that is what it takes:
/// asking for more than there is is no error.
pub proof fn lemma_listing_resolves(
    n: usize,
    listing: Seq<i64>,
    backend: spec_fn(i64) -> Result<StoryItem, FetchError>,
    reports: Seq<Report<StoryItem>>,
)
    requires
        schedule_of(selected(clamped(n as nat), listing), backend, reports),
    ensures
        ({
            let ids = selected(clamped(n as nat), listing);
            let stories = successes(replayed(fresh::<StoryItem>(ids), reports));
            &&& stories == fetched(ids, backend)
            &&& (forall|p: int| 0 <= p < ids.len() ==> backend(#[trigger] ids[p]) is Ok)
                ==> stories.len() == ids.len()
            &&& listing.len() <= clamped(n as nat) ==> ids == listing
        }),
{
    let ids = selected(clamped(n as nat), listing);
    lemma_batch_resolves(ids, backend, reports);
    if forall|p: int| 0 <= p < ids.len() ==> backend(#[trigger] ids[p]) is Ok {
        lemma_fetched_all(ids, backend);
    }
}

/// A story without children costs no fetch: its batch has no position, so no
/// request goes out, it is complete from the start, and it closes with no
/// comments.
pub proof fn lemma_no_children_no_fetch(kids: Seq<i64>)
    requires
        kids.len() == 0,
    ensures
        fresh::<Comment>(kids).len() == 0,
        complete(fresh::<Comment>(kids)),
        successes(fresh::<Comment>(kids)).len() == 0,
{
}

} // verus!
