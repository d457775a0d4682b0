//! The serial console.
use vstd::prelude::*;
use vstd::string::StringSliceAdditionalSpecFns;
use crate::message::{padded, Message};

verus! {

/// The first port's address.
pub const COM1: u16 = 0x3F8;

/// A serial port.
#[derive(Debug, Clone, Copy, PartialEq, Eq, Structural)]
pub struct Serial {
    pub base: u16,
}

/// A value for a register of the port.
#[derive(Debug, Clone, Copy, PartialEq, Eq, Structural)]
pub struct RegisterWrite {
    pub offset: u16,
    pub value: u8,
}

pub open spec fn reg(offset: u16, value: u8) -> RegisterWrite {
    RegisterWrite { offset, value }
}

/// The bytes that a message asks to be written: as many as its first byte says,
/// at most what the message holds.
pub open spec fn asked_bytes(msg: Message) -> Seq<u8> {
    if msg.tag != 1 {
        Seq::empty()
    } else if msg.data@[0] <= 55 {
        msg.data@.subrange(1, 1 + msg.data@[0])
    } else {
        msg.data@.subrange(1, 56)
    }
}

impl Serial {
    pub fn new() -> (s: Serial)
        ensures
            s.base == COM1,
    {
        Serial { base: COM1 }
    }

    /// The bytes that go out for a text.
    pub fn write_str<'a>(&self, s: &'a str) -> (bytes: &'a [u8])
        ensures
            bytes@ == s.spec_bytes(),
    {
        s.as_bytes()
    }

    /// How the port is set up: no interrupts, 115200 baud, eight bits, no
    /// parity, one stop bit, and the queues cleared and on.
    pub fn probe(&self) -> (writes: Vec<RegisterWrite>)
        ensures
            writes@ == seq![
                reg(1, 0x00),
                reg(3, 0x80),
                reg(0, 0x01),
                reg(1, 0x00),
                reg(3, 0x03),
                reg(2, 0xC7),
            ],
    {
        let writes = vec![
            RegisterWrite { offset: 1, value: 0x00 },
            RegisterWrite { offset: 3, value: 0x80 },
            RegisterWrite { offset: 0, value: 0x01 },
            RegisterWrite { offset: 1, value: 0x00 },
            RegisterWrite { offset: 3, value: 0x03 },
            RegisterWrite { offset: 2, value: 0xC7 },
        ];
        assert(writes@ =~= seq![
            reg(1, 0x00),
            reg(3, 0x80),
            reg(0, 0x01),
            reg(1, 0x00),
            reg(3, 0x03),
            reg(2, 0xC7),
        ]);
        writes
    }

    /// Answers a message: the bytes to write, and an empty reply.
    pub fn handle(&self, msg: &Message) -> (r: (Vec<u8>, Message))
        ensures
            r.0@ == asked_bytes(*msg),
            r.1.tag == 0,
            r.1.data@ == padded(Seq::empty()),
    {
        let mut out: Vec<u8> = Vec::new();
        if msg.tag == 1 {
            let len: usize = if msg.data[0] <= 55 { msg.data[0] as usize } else { 55 };
            let mut i: usize = 0;
            while i < len
                invariant
                    i <= len <= 55,
                    out@ == msg.data@.subrange(1, 1 + i),
                decreases len - i,
            {
                out.push(msg.data[1 + i]);
                i += 1;
                assert(out@ =~= msg.data@.subrange(1, 1 + i));
            }
        }
        assert(out@ =~= asked_bytes(*msg));
        (out, Message::empty())
    }
}

} // verus!
