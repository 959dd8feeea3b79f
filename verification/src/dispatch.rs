//! The dispatch queue: three independent FIFO tiers of outbound requests.

use crate::json::Json;
use crate::request::{decoded, views, ApiRequest, ApiRequestView, DecodeError};
use crate::text::spells;
use std::collections::VecDeque;
use vstd::prelude::*;

verus! {

/// The consistency tier of a queued request.
#[derive(Debug, Clone, Copy, PartialEq, Eq, Hash, Structural)]
pub enum QueueType {
    /// Ordinary requests; the only tier that can be aborted.
    Mutable,
    /// Mission-critical requests, handed out one at a time.
    Immutable,
    /// Fire-and-forget requests, never aborted.
    Passive,
}

/// The error of a tier selector that names none of the three tiers.
#[derive(Debug, Clone, Copy, PartialEq, Eq, Structural)]
pub struct UnknownTier;

impl QueueType {
    /// The tier that stands at an ordinal: the three tiers are numbered from 0.
    pub open spec fn tier_at(index: int) -> Option<QueueType> {
        if index == 0 {
            Some(QueueType::Mutable)
        } else if index == 1 {
            Some(QueueType::Immutable)
        } else if index == 2 {
            Some(QueueType::Passive)
        } else {
            None
        }
    }

    /// The ordinal of a tier.
    pub open spec fn ordinal(self) -> int {
        match self {
            QueueType::Mutable => 0,
            QueueType::Immutable => 1,
            QueueType::Passive => 2,
        }
    }

    /// The tier that goes by a name: each tier goes by its own name, spelled
    /// as the variant is.
    pub open spec fn tier_named(name: Seq<char>) -> Option<QueueType> {
        if name == "Mutable"@ {
            Some(QueueType::Mutable)
        } else if name == "Immutable"@ {
            Some(QueueType::Immutable)
        } else if name == "Passive"@ {
            Some(QueueType::Passive)
        } else {
            None
        }
    }

    /// The name of a tier.
    pub open spec fn name_of(self) -> Seq<char> {
        match self {
            QueueType::Mutable => "Mutable"@,
            QueueType::Immutable => "Immutable"@,
            QueueType::Passive => "Passive"@,
        }
    }

    /// Reads a tier selector that is a number. A number outside the three
    /// ordinals is refused.
    pub fn from_index(index: u32) -> (tier: Result<QueueType, UnknownTier>)
        ensures
            match Self::tier_at(index as int) {
                Some(known) => tier == Ok::<QueueType, UnknownTier>(known),
                None => tier == Err::<QueueType, UnknownTier>(UnknownTier),
            },
    {
        if index == 0 {
            Ok(QueueType::Mutable)
        } else if index == 1 {
            Ok(QueueType::Immutable)
        } else if index == 2 {
            Ok(QueueType::Passive)
        } else {
            Err(UnknownTier)
        }
    }

    /// Reads a tier selector that is a name. A name of no tier is refused.
    pub fn from_name(name: &str) -> (tier: Result<QueueType, UnknownTier>)
        ensures
            match Self::tier_named(name@) {
                Some(known) => tier == Ok::<QueueType, UnknownTier>(known),
                None => tier == Err::<QueueType, UnknownTier>(UnknownTier),
            },
    {
        let name = name.to_owned();
        if spells(&name, "Mutable") {
            Ok(QueueType::Mutable)
        } else if spells(&name, "Immutable") {
            Ok(QueueType::Immutable)
        } else if spells(&name, "Passive") {
            Ok(QueueType::Passive)
        } else {
            Err(UnknownTier)
        }
    }

    /// The number that `from_index` reads as this tier.
    pub fn index(self) -> (index: u32)
        ensures
            index == self.ordinal(),
    {
        match self {
            QueueType::Mutable => 0,
            QueueType::Immutable => 1,
            QueueType::Passive => 2,
        }
    }

    /// The name that `from_name` reads as this tier.
    pub fn name(self) -> (name: &'static str)
        ensures
            name@ == self.name_of(),
    {
        match self {
            QueueType::Mutable => "Mutable",
            QueueType::Immutable => "Immutable",
            QueueType::Passive => "Passive",
        }
    }
}

/// Every tier is read back from its own number and from its own name, and
/// from no other number or name.
pub proof fn lemma_tier_selectors(tier: QueueType, index: int, name: Seq<char>)
    ensures
        QueueType::tier_at(tier.ordinal()) == Some(tier),
        QueueType::tier_at(index) == Some(tier) <==> index == tier.ordinal(),
        QueueType::tier_named(tier.name_of()) == Some(tier),
        QueueType::tier_named(name) == Some(tier) <==> name == tier.name_of(),
{
    reveal_strlit("Mutable");
    reveal_strlit("Immutable");
    reveal_strlit("Passive");
    assert("Mutable"@.len() != "Immutable"@.len());
    assert("Mutable"@[0] != "Passive"@[0]);
    assert("Immutable"@.len() != "Passive"@.len());
}

/// What a dispatch queue holds: the pending requests of each tier, oldest
/// first, and the endpoint that it is bound to.
pub struct QueueModel {
    pub mutable: Seq<ApiRequestView>,
    pub immutable: Seq<ApiRequestView>,
    pub passive: Seq<ApiRequestView>,
    pub endpoint: Seq<char>,
}

impl QueueModel {
    /// A queue with nothing pending.
    pub open spec fn empty(endpoint: Seq<char>) -> QueueModel {
        QueueModel { mutable: Seq::empty(), immutable: Seq::empty(), passive: Seq::empty(), endpoint }
    }

    /// The pending requests of a tier, oldest first.
    pub open spec fn pending(self, tier: QueueType) -> Seq<ApiRequestView> {
        match tier {
            QueueType::Mutable => self.mutable,
            QueueType::Immutable => self.immutable,
            QueueType::Passive => self.passive,
        }
    }

    /// This queue with the pending requests of one tier replaced.
    pub open spec fn with_pending(self, tier: QueueType, requests: Seq<ApiRequestView>) -> QueueModel {
        match tier {
            QueueType::Mutable => QueueModel { mutable: requests, ..self },
            QueueType::Immutable => QueueModel { immutable: requests, ..self },
            QueueType::Passive => QueueModel { passive: requests, ..self },
        }
    }

    /// This queue after a request has joined the tail of a tier.
    pub open spec fn pushed(self, tier: QueueType, request: ApiRequestView) -> QueueModel {
        self.with_pending(tier, self.pending(tier).push(request))
    }

    /// How many requests one extraction takes from a tier: at most the oldest
    /// one from the immutable tier, all of them from the other two.
    pub open spec fn batch_len(self, tier: QueueType) -> nat {
        if tier == QueueType::Immutable && self.pending(tier).len() > 1 {
            1
        } else {
            self.pending(tier).len()
        }
    }

    /// The batch that one extraction takes from a tier, oldest first.
    pub open spec fn batch(self, tier: QueueType) -> Seq<ApiRequestView> {
        self.pending(tier).take(self.batch_len(tier) as int)
    }

    /// This queue after one extraction from a tier.
    pub open spec fn extracted(self, tier: QueueType) -> QueueModel {
        self.with_pending(tier, self.pending(tier).skip(self.batch_len(tier) as int))
    }

    /// How many requests an abort of a tier discards: all of the mutable tier,
    /// none of the other two.
    pub open spec fn abort_len(self, tier: QueueType) -> nat {
        if tier == QueueType::Mutable {
            self.mutable.len()
        } else {
            0
        }
    }

    /// This queue after an abort of a tier.
    pub open spec fn aborted(self, tier: QueueType) -> QueueModel {
        if tier == QueueType::Mutable {
            QueueModel { mutable: Seq::empty(), ..self }
        } else {
            self
        }
    }

    /// Whether any tier has a request pending.
    pub open spec fn has_pending(self) -> bool {
        self.mutable.len() != 0 || self.immutable.len() != 0 || self.passive.len() != 0
    }
}

/// Buffers outbound requests in three independent FIFO tiers until a flush
/// driver takes them out in batches.
pub struct DispatchQueue {
    mutable_queue: VecDeque<ApiRequest>,
    immutable_queue: VecDeque<ApiRequest>,
    passive_queue: VecDeque<ApiRequest>,
    endpoint: String,
}

impl View for DispatchQueue {
    type V = QueueModel;

    closed spec fn view(&self) -> QueueModel {
        QueueModel {
            mutable: views(self.mutable_queue@),
            immutable: views(self.immutable_queue@),
            passive: views(self.passive_queue@),
            endpoint: self.endpoint@,
        }
    }
}

/// Takes every request out of a buffer, oldest first.
fn drain_all(buffer: &mut VecDeque<ApiRequest>) -> (batch: Vec<ApiRequest>)
    ensures
        batch@ == old(buffer)@,
        final(buffer)@.len() == 0,
{
    let mut batch: Vec<ApiRequest> = Vec::new();
    while buffer.len() > 0
        invariant
            batch@ + buffer@ == old(buffer)@,
        decreases buffer.len(),
    {
        let ghost before = buffer@;
        match buffer.pop_front() {
            Some(request) => {
                proof {
                    assert(batch@.push(request) + buffer@ =~= batch@ + before);
                }
                batch.push(request);
            },
            None => {},
        }
    }
    proof {
        assert(batch@ =~= batch@ + buffer@);
    }
    batch
}

impl DispatchQueue {
    /// A queue bound to an endpoint, with nothing pending.
    pub fn new(endpoint: String) -> (queue: DispatchQueue)
        ensures
            queue@ == QueueModel::empty(endpoint@),
    {
        let queue = DispatchQueue {
            mutable_queue: VecDeque::new(),
            immutable_queue: VecDeque::new(),
            passive_queue: VecDeque::new(),
            endpoint,
        };
        proof {
            assert(views(queue.mutable_queue@) =~= Seq::empty());
            assert(views(queue.immutable_queue@) =~= Seq::empty());
            assert(views(queue.passive_queue@) =~= Seq::empty());
        }
        queue
    }

    /// Appends a decoded request to the tail of a tier.
    pub fn enqueue(&mut self, queue_type: QueueType, request: ApiRequest)
        ensures
            final(self)@ == old(self)@.pushed(queue_type, request@),
    {
        proof {
            let buffer = match queue_type {
                QueueType::Mutable => self.mutable_queue@,
                QueueType::Immutable => self.immutable_queue@,
                QueueType::Passive => self.passive_queue@,
            };
            assert(views(buffer.push(request)) =~= views(buffer).push(request@));
        }
        match queue_type {
            QueueType::Mutable => self.mutable_queue.push_back(request),
            QueueType::Immutable => self.immutable_queue.push_back(request),
            QueueType::Passive => self.passive_queue.push_back(request),
        }
    }

    /// Submits a payload to a tier. A payload that stands for a request joins
    /// the tail of that tier; any other is refused with the reason, and the
    /// queue stays as it was.
    pub fn push(&mut self, queue_type: QueueType, request: Json) -> (outcome: Result<
        (),
        DecodeError,
    >)
        ensures
            match decoded(request@) {
                Ok(read) => outcome is Ok && final(self)@ == old(self)@.pushed(queue_type, read),
                Err(e) => outcome == Err::<(), DecodeError>(e) && final(self)@ == old(self)@,
            },
    {
        match ApiRequest::decode(request) {
            Ok(read) => {
                self.enqueue(queue_type, read);
                Ok(())
            },
            Err(e) => Err(e),
        }
    }

    /// The number of requests pending in a tier.
    pub fn length(&self, queue_type: QueueType) -> (count: usize)
        ensures
            count == self@.pending(queue_type).len(),
    {
        match queue_type {
            QueueType::Mutable => self.mutable_queue.len(),
            QueueType::Immutable => self.immutable_queue.len(),
            QueueType::Passive => self.passive_queue.len(),
        }
    }

    /// Discards what is pending in the mutable tier and says how many requests
    /// that were. The other two tiers cannot be aborted: for them nothing
    /// changes and the count is 0.
    pub fn abort(&mut self, queue_type: QueueType) -> (count: usize)
        ensures
            count == old(self)@.abort_len(queue_type),
            final(self)@ == old(self)@.aborted(queue_type),
    {
        match queue_type {
            QueueType::Mutable => {
                let count = self.mutable_queue.len();
                self.mutable_queue.clear();
                proof {
                    assert(views(self.mutable_queue@) =~= Seq::empty());
                }
                count
            },
            QueueType::Immutable => 0,
            QueueType::Passive => 0,
        }
    }

    /// Takes the next batch out of a tier, oldest first: everything pending in
    /// the mutable or passive tier, at most the oldest request of the
    /// immutable tier. The queue forgets what it hands out.
    pub fn get_batch(&mut self, queue_type: QueueType) -> (batch: Vec<ApiRequest>)
        ensures
            views(batch@) == old(self)@.batch(queue_type),
            final(self)@ == old(self)@.extracted(queue_type),
    {
        let ghost before = self@.pending(queue_type);
        let batch = match queue_type {
            QueueType::Mutable => drain_all(&mut self.mutable_queue),
            QueueType::Immutable => {
                let ghost buffer = self.immutable_queue@;
                let mut one: Vec<ApiRequest> = Vec::new();
                match self.immutable_queue.pop_front() {
                    Some(request) => {
                        one.push(request);
                        proof {
                            assert(views(one@) =~= views(buffer).take(1));
                            assert(views(self.immutable_queue@) =~= views(buffer).skip(1));
                        }
                    },
                    None => {},
                }
                one
            },
            QueueType::Passive => drain_all(&mut self.passive_queue),
        };
        proof {
            assert(views(batch@) =~= before.take(old(self)@.batch_len(queue_type) as int));
            assert(self@.pending(queue_type) =~= before.skip(
                old(self)@.batch_len(queue_type) as int,
            ));
        }
        batch
    }

    /// The endpoint that the queue is bound to.
    pub fn get_endpoint(&self) -> (endpoint: String)
        ensures
            endpoint@ == self@.endpoint,
    {
        self.endpoint.clone()
    }

    /// Whether any tier has a request pending.
    pub fn has_pending(&self) -> (pending: bool)
        ensures
            pending == self@.has_pending(),
    {
        self.mutable_queue.len() != 0 || self.immutable_queue.len() != 0
            || self.passive_queue.len() != 0
    }
}

} // verus!
