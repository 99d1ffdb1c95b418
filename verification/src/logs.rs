//! The log builder: assembles topic/data event records in the standard
//! token-event format, one record per emitted event, in emission order.

use crate::codec::{address_to_topic, address_topic, is_amount_word, Address};
use vstd::prelude::*;

verus! {

/// The 32-byte topic hash of the token approval event, the truncated hash of
/// its canonical signature text, fixed at build time.
pub open spec fn approval_topic_seq() -> Seq<u8> {
    seq![
        0x8cu8, 0x5b, 0xe1, 0xe5, 0xeb, 0xec, 0x7d, 0x5b, 0xd1, 0x4f, 0x71, 0x42, 0x7d, 0x1e,
        0x84, 0xf3, 0xdd, 0x03, 0x14, 0xc0, 0xf7, 0xb2, 0x29, 0x1e, 0x5b, 0x20, 0x0a, 0xc8, 0xc7,
        0xc3, 0xb9, 0x25,
    ]
}

/// The 32-byte topic hash of the token transfer event, the truncated hash of
/// its canonical signature text, fixed at build time.
pub open spec fn transfer_topic_seq() -> Seq<u8> {
    seq![
        0xddu8, 0xf2, 0x52, 0xad, 0x1b, 0xe2, 0xc8, 0x9b, 0x69, 0xc2, 0xb0, 0x68, 0xfc, 0x37,
        0x8d, 0xaa, 0x95, 0x2b, 0xa7, 0xf1, 0x63, 0xc4, 0xa1, 0x16, 0x28, 0xf5, 0x5a, 0x4d, 0xf5,
        0x23, 0xb3, 0xef,
    ]
}

/// The approval event's topic hash as bytes.
pub fn selector_log_approval() -> (r: [u8; 32])
    ensures
        r@ == approval_topic_seq(),
{
    let r: [u8; 32] = [
        0x8c, 0x5b, 0xe1, 0xe5, 0xeb, 0xec, 0x7d, 0x5b, 0xd1, 0x4f, 0x71, 0x42, 0x7d, 0x1e, 0x84,
        0xf3, 0xdd, 0x03, 0x14, 0xc0, 0xf7, 0xb2, 0x29, 0x1e, 0x5b, 0x20, 0x0a, 0xc8, 0xc7, 0xc3,
        0xb9, 0x25,
    ];
    proof {
        assert(r@ =~= approval_topic_seq());
    }
    r
}

/// The transfer event's topic hash as bytes.
pub fn selector_log_transfer() -> (r: [u8; 32])
    ensures
        r@ == transfer_topic_seq(),
{
    let r: [u8; 32] = [
        0xdd, 0xf2, 0x52, 0xad, 0x1b, 0xe2, 0xc8, 0x9b, 0x69, 0xc2, 0xb0, 0x68, 0xfc, 0x37, 0x8d,
        0xaa, 0x95, 0x2b, 0xa7, 0xf1, 0x63, 0xc4, 0xa1, 0x16, 0x28, 0xf5, 0x5a, 0x4d, 0xf5, 0x23,
        0xb3, 0xef,
    ];
    proof {
        assert(r@ =~= transfer_topic_seq());
    }
    r
}

/// One emitted event record: the emitting address, the topic list headed by
/// the event's hash, and the ABI-encoded data payload.
#[derive(Debug, PartialEq, Eq)]
pub struct Log {
    pub address: Address,
    pub topics: Vec<[u8; 32]>,
    pub data: Vec<u8>,
}

/// `g` is a token event record: topics `[event-hash, first indexed address,
/// second indexed address]`, emitted by `emitter`, whose data payload is the
/// word encoding `amount`.
pub open spec fn is_token_log(
    g: Log,
    emitter: Seq<u8>,
    topic0: Seq<u8>,
    a1: Seq<u8>,
    a2: Seq<u8>,
    amount: nat,
) -> bool {
    &&& g.address@ == emitter
    &&& g.topics@.len() == 3
    &&& g.topics@[0]@ == topic0
    &&& g.topics@[1]@ == address_topic(a1)
    &&& g.topics@[2]@ == address_topic(a2)
    &&& is_amount_word(g.data@, amount)
}

/// Assembles event records for one emitting address.
pub struct LogsBuilder {
    pub address: Address,
    pub logs: Vec<Log>,
}

impl LogsBuilder {
    pub fn new(address: Address) -> (r: Self)
        ensures
            r.address == address,
            r.logs@.len() == 0,
    {
        LogsBuilder { address, logs: Vec::new() }
    }

    /// Append a record with three topics: the event hash and two indexed
    /// addresses, each zero-extended to 32 bytes.
    pub fn log3(self, topic0: [u8; 32], a1: &Address, a2: &Address, data: Vec<u8>) -> (r: Self)
        ensures
            r.address == self.address,
            r.logs@.len() == self.logs@.len() + 1,
            r.logs@.subrange(0, self.logs@.len() as int) == self.logs@,
            ({
                let g = r.logs@.last();
                &&& g.address == self.address
                &&& g.topics@.len() == 3
                &&& g.topics@[0]@ == topic0@
                &&& g.topics@[1]@ == address_topic(a1@)
                &&& g.topics@[2]@ == address_topic(a2@)
                &&& g.data@ == data@
            }),
    {
        let mut topics: Vec<[u8; 32]> = Vec::new();
        topics.push(topic0);
        topics.push(address_to_topic(a1));
        topics.push(address_to_topic(a2));
        let record = Log { address: self.address, topics, data };
        let mut logs = self.logs;
        let ghost logs0 = logs@;
        logs.push(record);
        proof {
            assert(logs@.subrange(0, logs0.len() as int) =~= logs0);
        }
        LogsBuilder { address: self.address, logs }
    }

    /// Finalize to the emitted records in emission order.
    pub fn build(self) -> (r: Vec<Log>)
        ensures
            r@ == self.logs@,
    {
        self.logs
    }
}

} // verus!
