//! The single-slot holder of the latest snapshot, and the read side that
//! request handlers use.
//!
//! The store's model is the sequence of every snapshot written to it; what
//! a reader sees is the last of them, whole, or nothing before the first.
//! Writers take it by `&mut` and readers by `&`, so a host that shares it
//! behind a reader-writer lock serialises each write against every read.

use vstd::prelude::*;
use crate::snapshot::MarketSnapshot;

verus! {

/// The value a store shows after `writes`: the last one, or absent.
pub open spec fn latest_of(writes: Seq<MarketSnapshot>) -> Option<MarketSnapshot> {
    if writes.len() == 0 {
        None
    } else {
        Some(writes.last())
    }
}

/// Holds the most recent snapshot, replaced wholesale on each write.
pub struct SnapshotStore {
    latest: Option<MarketSnapshot>,
    writes: Ghost<Seq<MarketSnapshot>>,
}

impl View for SnapshotStore {
    type V = Seq<MarketSnapshot>;

    closed spec fn view(&self) -> Seq<MarketSnapshot> {
        self.writes@
    }
}

impl SnapshotStore {
    #[verifier::type_invariant]
    closed spec fn holds_last_write(&self) -> bool {
        self.latest == latest_of(self.writes@)
    }

    /// An empty store: nothing written yet.
    pub fn new() -> (r: SnapshotStore)
        ensures
            r@ == Seq::<MarketSnapshot>::empty(),
    {
        SnapshotStore { latest: None, writes: Ghost(Seq::empty()) }
    }

    /// Replaces the held value with `s`.
    pub fn write(&mut self, s: MarketSnapshot)
        ensures
            final(self)@ == old(self)@.push(s),
    {
        let ghost writes = self.writes@.push(s);
        *self = SnapshotStore { latest: Some(s), writes: Ghost(writes) };
    }

    /// The held value: the last snapshot written, or absent.
    pub fn read(&self) -> (r: Option<MarketSnapshot>)
        ensures
            r == latest_of(self@),
    {
        proof {
            use_type_invariant(self);
        }
        match &self.latest {
            Some(s) => Some(s.clone()),
            None => None,
        }
    }
}

/// A read never mixes fields of different writes: it is absent exactly
/// when nothing was written, and otherwise one written snapshot, whole.
pub proof fn lemma_read_is_whole_write(writes: Seq<MarketSnapshot>)
    ensures
        latest_of(writes) is None <==> writes.len() == 0,
        latest_of(writes) is Some ==> exists|i: int|
            0 <= i < writes.len() && latest_of(writes) == Some(#[trigger] writes[i]),
{
    if writes.len() > 0 {
        assert(latest_of(writes) == Some(writes[writes.len() - 1]));
    }
}

/// The latest snapshot, or absent before the first successful fetch.
pub fn get_latest(store: &SnapshotStore) -> (r: Option<MarketSnapshot>)
    ensures
        r == latest_of(store@),
{
    store.read()
}

/// The read for a host whose request handlers answer with a `Result`: it
/// always succeeds, with the latest snapshot or absent.
pub fn get_latest_snapshot(store: &SnapshotStore) -> (r: Result<Option<MarketSnapshot>, String>)
    ensures
        r == Ok::<Option<MarketSnapshot>, String>(latest_of(store@)),
{
    Ok(get_latest(store))
}

} // verus!
