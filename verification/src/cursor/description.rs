//! What the cursor logic reads of a cursor's description.
use vstd::prelude::*;

verus! {

/// How often a cursor without a change stream polls, in milliseconds, unless its description says
/// otherwise.
pub const DEFAULT_POLLING_INTERVAL_MS: u64 = 10_000;

/// The collection that a cursor reads and the options that steer it.
pub struct CursorDescription {
    /// The name of the collection.
    pub collection: String,
    /// The most documents that the cursor shows, in sort order.
    pub limit: Option<usize>,
    /// How often to poll, in milliseconds.
    pub polling_interval_ms: Option<u64>,
}

impl CursorDescription {
    /// The polling interval in milliseconds that applies.
    pub open spec fn interval(self) -> u64 {
        match self.polling_interval_ms {
            Some(interval) => interval,
            None => DEFAULT_POLLING_INTERVAL_MS,
        }
    }

    /// The most documents that the cursor shows.
    pub fn limit(&self) -> (limit: Option<usize>)
        ensures
            limit == self.limit,
    {
        self.limit
    }

    /// The polling interval in milliseconds: the described one, or the default.
    pub fn polling_interval(&self) -> (interval: u64)
        ensures
            interval == self.interval(),
    {
        self.polling_interval_ms.unwrap_or(DEFAULT_POLLING_INTERVAL_MS)
    }
}

/// A cursor polls as often as its description says, and every ten seconds if that says nothing.
pub proof fn law_described_interval_applies(description: CursorDescription, milliseconds: u64)
    ensures
        description.polling_interval_ms == Some(milliseconds) ==> description.interval()
            == milliseconds,
        description.polling_interval_ms is None ==> description.interval() == 10_000,
{
}

} // verus!
