use crate::identity::Identity;
use vstd::prelude::*;

verus! {

/// Exact size in bytes of a metadata record of a collection member.
pub const RECORD_SIZE: usize = 679;

/// Seconds to wait before a failed record query is sent again.
pub const QUERY_RETRY_DELAY_SECS: u64 = 5;

/// The known metadata record layouts, which differ in where the collection
/// identity sits.
#[derive(Clone, Copy, Debug, PartialEq, Eq, Structural)]
pub enum LayoutVariant {
    /// The collection identity starts at byte 401.
    Unpadded,
    /// The collection identity starts at byte 402.
    Padded,
}

pub open spec fn offset_of(v: LayoutVariant) -> nat {
    match v {
        LayoutVariant::Unpadded => 401,
        LayoutVariant::Padded => 402,
    }
}

/// Every known layout, in the order they are queried.
pub open spec fn all_variants() -> Seq<LayoutVariant> {
    seq![LayoutVariant::Unpadded, LayoutVariant::Padded]
}

impl LayoutVariant {
    /// Byte offset of the collection identity in a record of this layout.
    pub fn collection_offset(&self) -> (r: usize)
        ensures
            r == offset_of(*self),
    {
        match self {
            LayoutVariant::Unpadded => 401,
            LayoutVariant::Padded => 402,
        }
    }

    pub fn all() -> (r: Vec<LayoutVariant>)
        ensures
            r@ == all_variants(),
    {
        let r = vec![LayoutVariant::Unpadded, LayoutVariant::Padded];
        proof {
            assert(r@ =~= all_variants());
        }
        r
    }
}

/// A filtered query for records: exact size, and the collection identity
/// at a given offset.
#[derive(Clone, Copy, Debug, PartialEq, Eq)]
pub struct RecordQuery {
    pub data_size: usize,
    pub offset: usize,
    pub collection: [u8; 32],
}

pub open spec fn query_of(v: LayoutVariant, collection: Identity) -> RecordQuery {
    RecordQuery { data_size: RECORD_SIZE, offset: offset_of(v) as usize, collection: collection.bytes }
}

/// Whether a record's bytes pass a query's filters.
pub open spec fn passes(q: RecordQuery, data: Seq<u8>) -> bool {
    &&& data.len() == q.data_size
    &&& q.offset + 32 <= data.len()
    &&& data.subrange(q.offset as int, q.offset + 32) == q.collection@
}

/// Whether a record belongs to the collection under some known layout.
pub open spec fn belongs_to(collection: Identity, data: Seq<u8>) -> bool {
    exists|i: int| 0 <= i < all_variants().len() && passes(query_of(all_variants()[i], collection), data)
}

/// The query for `variant`.
pub fn query_for(variant: LayoutVariant, collection: &Identity) -> (r: RecordQuery)
    ensures
        r == query_of(variant, *collection),
{
    RecordQuery { data_size: RECORD_SIZE, offset: variant.collection_offset(), collection: collection.bytes }
}

/// One query per known layout, in layout order.
pub fn queries_for(collection: &Identity) -> (r: Vec<RecordQuery>)
    ensures
        r@.len() == all_variants().len(),
        forall|i: int| 0 <= i < r@.len() ==> r@[i] == query_of(all_variants()[i], *collection),
{
    let variants = LayoutVariant::all();
    let mut r: Vec<RecordQuery> = Vec::new();
    let mut i: usize = 0;
    while i < variants.len()
        invariant
            variants@ == all_variants(),
            i <= variants.len(),
            r@.len() == i,
            forall|j: int| 0 <= j < i ==> r@[j] == query_of(all_variants()[j], *collection),
        decreases variants.len() - i,
    {
        r.push(query_for(variants[i], collection));
        i = i + 1;
    }
    r
}

/// Checks a record's bytes against a query's filters.
pub fn record_passes(q: &RecordQuery, data: &[u8]) -> (r: bool)
    ensures
        r == passes(*q, data@),
{
    if data.len() != q.data_size || q.offset > data.len() || data.len() - q.offset < 32 {
        return false;
    }
    let mut i: usize = 0;
    while i < 32
        invariant
            q.offset + 32 <= data.len(),
            i <= 32,
            forall|j: int| 0 <= j < i ==> data@[q.offset + j] == q.collection@[j],
        decreases 32 - i,
    {
        if data[q.offset + i] != q.collection[i] {
            proof {
                assert(data@.subrange(q.offset as int, q.offset + 32)[i as int] != q.collection@[i as int]);
            }
            return false;
        }
        i = i + 1;
    }
    proof {
        assert(data@.subrange(q.offset as int, q.offset + 32) =~= q.collection@);
    }
    true
}

/// Whether a record belongs to the collection under either known layout.
pub fn record_belongs(collection: &Identity, data: &[u8]) -> (r: bool)
    ensures
        r == belongs_to(*collection, data@),
{
    let queries = queries_for(collection);
    let mut i: usize = 0;
    while i < queries.len()
        invariant
            queries@.len() == all_variants().len(),
            forall|j: int| 0 <= j < queries@.len() ==> queries@[j] == query_of(all_variants()[j], *collection),
            i <= queries.len(),
            forall|j: int| 0 <= j < i ==> !passes(query_of(all_variants()[j], *collection), data@),
        decreases queries.len() - i,
    {
        if record_passes(&queries[i], data) {
            return true;
        }
        i = i + 1;
    }
    false
}

/// What to do after a failed attempt.
#[derive(Clone, Copy, Debug, PartialEq, Eq)]
pub enum RetryDecision {
    /// Try again after this many seconds.
    RetryAfter(u64),
    /// Stop trying.
    GiveUp,
}

/// When and how often a failed operation is tried again.
#[derive(Clone, Copy, Debug, PartialEq, Eq)]
pub struct RetryPolicy {
    pub delay_secs: u64,
    /// `None`: retry without end.
    pub max_attempts: Option<u32>,
}

/// The decision of `p` after `attempts` failed attempts.
pub open spec fn decision(p: RetryPolicy, attempts: u32) -> RetryDecision {
    match p.max_attempts {
        Some(m) if attempts >= m => RetryDecision::GiveUp,
        _ => RetryDecision::RetryAfter(p.delay_secs),
    }
}

impl RetryPolicy {
    /// The policy of record queries: retry every few seconds, without end.
    pub fn record_queries() -> (r: RetryPolicy)
        ensures
            r.delay_secs == QUERY_RETRY_DELAY_SECS,
            r.max_attempts is None,
    {
        RetryPolicy { delay_secs: QUERY_RETRY_DELAY_SECS, max_attempts: None }
    }

    /// The decision after `attempts` attempts that all failed.
    pub fn after_failure(&self, attempts: u32) -> (r: RetryDecision)
        ensures
            r == decision(*self, attempts),
    {
        match self.max_attempts {
            Some(m) => {
                if attempts >= m {
                    RetryDecision::GiveUp
                } else {
                    RetryDecision::RetryAfter(self.delay_secs)
                }
            },
            None => RetryDecision::RetryAfter(self.delay_secs),
        }
    }
}

} // verus!
