//! The ingestion walker: the decisions of one family's walk through the
//! upstream history, from a cursor forward to the present, page by page.

use crate::text::{append_decimal, decimal_text, parse_i64, parsed_i64};
use vstd::prelude::*;
use vstd::string::*;

verus! {

/// The four metric families.
#[derive(Clone, Copy, PartialEq, Eq, Structural, Debug)]
pub enum Family {
    Depth,
    Swaps,
    Earnings,
    RunePool,
}

/// Why a walk ended in failure.
#[derive(Clone, Copy, PartialEq, Eq, Structural, Debug)]
pub enum WalkError {
    /// Upstream could not be reached or answered without success.
    Transport,
    /// The answer did not have the expected shape.
    Decode,
    /// The page did not say where it ends.
    EndTime,
}

/// Where a walk stands.
#[derive(Clone, Copy, PartialEq, Eq, Structural, Debug)]
pub enum WalkerState {
    /// A page starting at `cursor` is being fetched.
    Fetching { cursor: i64 },
    /// A page that ends at `end_time` is being normalized and stored.
    Storing { end_time: i64 },
    /// The walk reached the present, or upstream had nothing more.
    Done,
    /// The walk ended in failure; the next run starts over from its cursor.
    Failed { reason: WalkError },
}

/// What happened outside since the walker last decided.
#[derive(Debug)]
pub enum WalkerEvent {
    /// The fetch failed in transport.
    TransportFailed,
    /// The fetched body could not be decoded.
    DecodeFailed,
    /// A page was fetched and decoded: the end time its summary reports, as
    /// text, and the number of intervals it holds.
    PageFetched { end_time: String, intervals: usize },
    /// The page was stored, and the clock read `now` afterwards. Records the
    /// store refused do not stop the walk.
    PageStored { now: i64 },
}

/// What the driver of the walk is to do next.
#[derive(Clone, Copy, PartialEq, Eq, Structural, Debug)]
pub enum WalkerAction {
    /// Fetch the page that starts at `cursor`, after waiting `delay_seconds`.
    Fetch { cursor: i64, delay_seconds: u64 },
    /// Normalize and store the page just fetched.
    StorePage,
    /// Nothing more: the walk is over.
    Stop,
}

/// Seconds the walker waits between two pages, out of courtesy to upstream.
pub const PAGE_DELAY_SECONDS: u64 = 1;

/// The next state and action of a walk, given what happened.
///
/// A failed fetch fails the walk. An empty page ends it. A page with
/// intervals is stored, unless its end time cannot be read, which fails the
/// walk before anything is stored. Once the page is stored, the walk ends
/// if the page reaches the present, and else goes on from the page's end
/// after a short wait. Finished walks stay finished, and an event that does
/// not belong to the state changes nothing.
pub open spec fn next_step(state: WalkerState, event: WalkerEvent) -> (WalkerState, WalkerAction) {
    match (state, event) {
        (WalkerState::Fetching { cursor }, WalkerEvent::TransportFailed) => (
            WalkerState::Failed { reason: WalkError::Transport },
            WalkerAction::Stop,
        ),
        (WalkerState::Fetching { cursor }, WalkerEvent::DecodeFailed) => (
            WalkerState::Failed { reason: WalkError::Decode },
            WalkerAction::Stop,
        ),
        (WalkerState::Fetching { cursor }, WalkerEvent::PageFetched { end_time, intervals }) => {
            if intervals == 0 {
                (WalkerState::Done, WalkerAction::Stop)
            } else {
                match parsed_i64(end_time@) {
                    Some(end) => (WalkerState::Storing { end_time: end }, WalkerAction::StorePage),
                    None => (WalkerState::Failed { reason: WalkError::EndTime }, WalkerAction::Stop),
                }
            }
        },
        (WalkerState::Storing { end_time }, WalkerEvent::PageStored { now }) => {
            if end_time >= now {
                (WalkerState::Done, WalkerAction::Stop)
            } else {
                (
                    WalkerState::Fetching { cursor: end_time },
                    WalkerAction::Fetch { cursor: end_time, delay_seconds: 1 },
                )
            }
        },
        (WalkerState::Done, _) => (WalkerState::Done, WalkerAction::Stop),
        (WalkerState::Failed { reason }, _) => (WalkerState::Failed { reason }, WalkerAction::Stop),
        (other, _) => (other, WalkerAction::Stop),
    }
}

/// Address of the upstream page of a family.
pub open spec fn fetch_url_text(family: Family, pool: Seq<char>, interval: Seq<char>, from: int) -> Seq<
    char,
> {
    (match family {
        Family::Depth => "https://midgard.ninerealms.com/v2/history/depths/"@ + pool,
        Family::Swaps => "https://midgard.ninerealms.com/v2/history/swaps"@,
        Family::Earnings => "https://midgard.ninerealms.com/v2/history/earnings"@,
        Family::RunePool => "https://midgard.ninerealms.com/v2/history/runepool/"@,
    }) + "?interval="@ + interval + "&from="@ + decimal_text(from) + "&count=400"@
}

/// Begins a walk at `cursor`.
pub fn start_walk(cursor: i64) -> (begin: (WalkerState, WalkerAction))
    ensures
        begin.0 == (WalkerState::Fetching { cursor }),
        begin.1 == (WalkerAction::Fetch { cursor, delay_seconds: 0 }),
{
    (WalkerState::Fetching { cursor }, WalkerAction::Fetch { cursor, delay_seconds: 0 })
}

/// Decides the next state and action of a walk.
pub fn step(state: WalkerState, event: &WalkerEvent) -> (next: (WalkerState, WalkerAction))
    ensures
        next == next_step(state, *event),
{
    match state {
        WalkerState::Fetching { cursor } => match event {
            WalkerEvent::TransportFailed => (
                WalkerState::Failed { reason: WalkError::Transport },
                WalkerAction::Stop,
            ),
            WalkerEvent::DecodeFailed => (
                WalkerState::Failed { reason: WalkError::Decode },
                WalkerAction::Stop,
            ),
            WalkerEvent::PageFetched { end_time, intervals } => {
                if *intervals == 0 {
                    (WalkerState::Done, WalkerAction::Stop)
                } else {
                    match parse_i64(end_time.as_str()) {
                        Some(end) => (
                            WalkerState::Storing { end_time: end },
                            WalkerAction::StorePage,
                        ),
                        None => (
                            WalkerState::Failed { reason: WalkError::EndTime },
                            WalkerAction::Stop,
                        ),
                    }
                }
            },
            WalkerEvent::PageStored { now } => (state, WalkerAction::Stop),
        },
        WalkerState::Storing { end_time } => match event {
            WalkerEvent::PageStored { now } => {
                if end_time >= *now {
                    (WalkerState::Done, WalkerAction::Stop)
                } else {
                    (
                        WalkerState::Fetching { cursor: end_time },
                        WalkerAction::Fetch { cursor: end_time, delay_seconds: PAGE_DELAY_SECONDS },
                    )
                }
            },
            _ => (state, WalkerAction::Stop),
        },
        WalkerState::Done => (WalkerState::Done, WalkerAction::Stop),
        WalkerState::Failed { reason } => (WalkerState::Failed { reason }, WalkerAction::Stop),
    }
}

/// Whether a walk is over.
pub fn is_finished(state: WalkerState) -> (over: bool)
    ensures
        over == (state is Done || state is Failed),
{
    match state {
        WalkerState::Done => true,
        WalkerState::Failed { .. } => true,
        _ => false,
    }
}

/// Builds the address of the upstream page of `family` that starts at
/// `from`: the family's path, with the pool for the pool-scoped family,
/// then the interval, the cursor and the page size.
pub fn fetch_url(family: Family, pool: &str, interval: &str, from: i64) -> (url: String)
    ensures
        url@ == fetch_url_text(family, pool@, interval@, from as int),
{
    let mut url = match family {
        Family::Depth => {
            let mut base = String::from_str("https://midgard.ninerealms.com/v2/history/depths/");
            base.append(pool);
            base
        },
        Family::Swaps => String::from_str("https://midgard.ninerealms.com/v2/history/swaps"),
        Family::Earnings => String::from_str("https://midgard.ninerealms.com/v2/history/earnings"),
        Family::RunePool => String::from_str("https://midgard.ninerealms.com/v2/history/runepool/"),
    };
    url.append("?interval=");
    url.append(interval);
    url.append("&from=");
    append_decimal(&mut url, from);
    url.append("&count=400");
    url
}

/// A walk that is over stays over, whatever happens.
pub proof fn lemma_finished_walks_stay(state: WalkerState, event: WalkerEvent)
    requires
        state is Done || state is Failed,
    ensures
        next_step(state, event).0 == state,
        next_step(state, event).1 == WalkerAction::Stop,
{
}

/// A walk only ever fetches from the end of the page it stored last, and
/// only while that page ends before the present.
pub proof fn lemma_cursor_follows_page(state: WalkerState, event: WalkerEvent)
    ensures
        next_step(state, event).1 matches WalkerAction::Fetch { cursor, delay_seconds } ==> {
            &&& state matches WalkerState::Storing { end_time }
            &&& event matches WalkerEvent::PageStored { now }
            &&& cursor == end_time
            &&& end_time < now
            &&& delay_seconds == 1
            &&& next_step(state, event).0 == (WalkerState::Fetching { cursor: end_time })
        },
{
}

} // verus!
