//! The messages that driver servers exchange.
use vstd::prelude::*;

verus! {

/// A message: what it asks or answers, and a fixed run of bytes.
#[derive(Debug, Clone, Copy)]
pub struct Message {
    pub tag: u64,
    pub data: [u8; 56],
}

/// A run of bytes cut or filled up with zeros to a message's length.
pub open spec fn padded(bytes: Seq<u8>) -> Seq<u8> {
    Seq::new(
        56,
        |i: int|
            if i < bytes.len() {
                bytes[i]
            } else {
                0
            },
    )
}

impl Message {
    /// The message that says nothing.
    pub fn empty() -> (m: Message)
        ensures
            m.tag == 0,
            m.data@ == padded(Seq::empty()),
    {
        let m = Message { tag: 0, data: [0u8; 56] };
        assert(m.data@ =~= padded(Seq::empty()));
        m
    }

    /// A message that holds the first bytes of `bytes`.
    pub fn holding(tag: u64, bytes: &Vec<u8>) -> (m: Message)
        ensures
            m.tag == tag,
            m.data@ == padded(bytes@),
    {
        let mut data: [u8; 56] = [0u8; 56];
        let mut i: usize = 0;
        while i < 56 && i < bytes.len()
            invariant
                i <= 56,
                i <= bytes@.len(),
                forall|k: int|
                    0 <= k < 56 ==> #[trigger] data@[k] == (if k < i {
                        bytes@[k]
                    } else {
                        0
                    }),
            decreases 56 - i,
        {
            data[i] = bytes[i];
            i = i + 1;
        }
        assert(data@ =~= padded(bytes@));
        Message { tag, data }
    }
}

} // verus!
