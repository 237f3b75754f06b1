//! What the client reads from the untrusted L2 node: confirmed blocks, and
//! the events of a block page by page.

use vstd::prelude::*;

verus! {

/// A block answered by the L2 node: confirmed, or still pending.
#[derive(Clone, Copy, Debug)]
pub enum MaybePendingBlock<B, P> {
    /// A confirmed block.
    Block(B),
    /// The pending block.
    PendingBlock(P),
}

/// Why a confirmed block could not be had.
#[derive(Clone, Debug)]
pub enum L2ClientError {
    /// The node answered with the pending block.
    PendingBlock,
    /// The request failed, with the node's message.
    Fetch(String),
}

/// Keeps a confirmed block and refuses the pending one.
pub fn confirmed_block<B, P>(response: Result<MaybePendingBlock<B, P>, String>) -> (res: Result<
    B,
    L2ClientError,
>)
    ensures
        response matches Ok(MaybePendingBlock::Block(b)) ==> res == Ok::<B, L2ClientError>(b),
        response matches Ok(MaybePendingBlock::PendingBlock(_)) ==> res == Err::<B, L2ClientError>(
            L2ClientError::PendingBlock,
        ),
        response matches Err(e) ==> res == Err::<B, L2ClientError>(L2ClientError::Fetch(e)),
{
    match response {
        Ok(MaybePendingBlock::Block(block)) => Ok(block),
        Ok(MaybePendingBlock::PendingBlock(_)) => Err(L2ClientError::PendingBlock),
        Err(e) => Err(L2ClientError::Fetch(e)),
    }
}

/// The number of events that one page asks for.
pub const EVENTS_CHUNK_SIZE: u64 = 1024;

/// A request for one page of the events of a block.
#[derive(Clone, Debug)]
pub struct EventsPageRequest {
    /// Where the page starts: `None` for the first page, else the token of
    /// the page before.
    pub continuation_token: Option<String>,
    /// How many events the page holds at most.
    pub chunk_size: u64,
}

/// The view of an optional string.
pub open spec fn opt_string_view(o: Option<String>) -> Option<Seq<char>> {
    match o {
        Some(s) => Some(s@),
        None => None,
    }
}

/// Collects the events of a block, page after page, until a page comes
/// without a continuation token.
#[derive(Debug)]
pub struct BlockEventsPager<E> {
    /// The events collected so far, in the order of the pages.
    pub events: Vec<E>,
    /// The token that the next page starts from.
    pub continuation_token: Option<String>,
    /// Whether the last page has been taken in.
    pub done: bool,
}

impl<E> BlockEventsPager<E> {
    /// A pager that has taken in no page.
    pub fn new() -> (res: BlockEventsPager<E>)
        ensures
            res.events@ == Seq::<E>::empty(),
            res.continuation_token is None,
            !res.done,
    {
        BlockEventsPager { events: Vec::new(), continuation_token: None, done: false }
    }

    /// The next page to ask for, or `None` once the last page is in.
    pub fn next_request(&self) -> (res: Option<EventsPageRequest>)
        ensures
            self.done ==> res is None,
            !self.done ==> (res matches Some(r) && opt_string_view(r.continuation_token)
                == opt_string_view(self.continuation_token) && r.chunk_size == EVENTS_CHUNK_SIZE),
    {
        if self.done {
            None
        } else {
            let continuation_token = match &self.continuation_token {
                Some(t) => Some(t.clone()),
                None => None,
            };
            Some(EventsPageRequest { continuation_token, chunk_size: EVENTS_CHUNK_SIZE })
        }
    }

    /// Takes in one page: its events follow those collected so far, and
    /// the page is the last when it has no continuation token.
    pub fn on_page(&mut self, page_events: Vec<E>, continuation_token: Option<String>)
        requires
            !old(self).done,
        ensures
            final(self).events@ == old(self).events@ + page_events@,
            final(self).continuation_token == continuation_token,
            final(self).done == (continuation_token is None),
    {
        let mut page_events = page_events;
        self.done = continuation_token.is_none();
        self.continuation_token = continuation_token;
        self.events.append(&mut page_events);
    }

    /// The events collected.
    pub fn into_events(self) -> (res: Vec<E>)
        ensures
            res@ == self.events@,
    {
        self.events
    }
}

} // verus!
