//! A message under reassembly, and the fast-packet protocol that fills it frame
//! by frame.
use vstd::prelude::*;
use crate::types::{Timestamp, TDest, TPrio, TSrc};
use crate::messages::{decode, lemma_catalogue, values_of, MessageValue, PgnKind};
use crate::yd::{FrameView, YDRaw};

verus! {

broadcast use vstd::array::group_array_axioms;

/// Why a frame cannot be added to a message.
#[derive(Clone, Copy, Debug, PartialEq, Eq, Structural)]
pub enum N2kMessageErr {
    /// The frame is neither the next one of the sequence nor a new start.
    OutOfSequence,
    /// A first frame announces another length than the catalogue gives.
    UnexpectedLength,
}

/// What a message holds.
pub struct MessageView {
    pub kind: PgnKind,
    pub timestamp: Timestamp,
    pub prio: TPrio,
    pub src: TSrc,
    pub dest: TDest,
    pub data: Seq<u8>,
    pub counter_mask: u8,
    pub next_packet: u8,
    pub remaining_bytes: nat,
}

/// A message of one catalogue kind, complete or under reassembly.
#[derive(Clone, Debug)]
pub struct Message {
    pub kind: PgnKind,
    /// Time of the frame that started the message.
    pub timestamp: Timestamp,
    pub prio: TPrio,
    pub src: TSrc,
    pub dest: TDest,
    /// Payload bytes collected so far.
    pub data: Vec<u8>,
    /// Sequence byte of the first frame, which later frames are checked against.
    pub counter_mask: u8,
    /// Number of frames consumed so far.
    pub next_packet: u8,
    /// Bytes still missing; zero when the message is complete.
    pub remaining_bytes: usize,
}

impl View for Message {
    type V = MessageView;

    open spec fn view(&self) -> MessageView {
        MessageView {
            kind: self.kind,
            timestamp: self.timestamp,
            prio: self.prio,
            src: self.src,
            dest: self.dest,
            data: self.data@,
            counter_mask: self.counter_mask,
            next_packet: self.next_packet,
            remaining_bytes: self.remaining_bytes as nat,
        }
    }
}

pub open spec fn min(a: nat, b: nat) -> nat {
    if a <= b {
        a
    } else {
        b
    }
}

/// A message of kind `k` that no frame has reached yet.
pub open spec fn fresh(k: PgnKind) -> MessageView {
    MessageView {
        kind: k,
        timestamp: Timestamp { hour: 0, minute: 0, millis: 0 },
        prio: 0,
        src: 0,
        dest: 0,
        data: seq![],
        counter_mask: 0,
        next_packet: 0,
        remaining_bytes: k.spec_bytes(),
    }
}

/// The frame counter after one more frame.
pub open spec fn next_count(n: u8) -> u8 {
    if n == 255 {
        0
    } else {
        (n + 1) as u8
    }
}

/// `m` after the first frame `f` of a fast packet, with `kept` as the bytes held before.
pub open spec fn begin(m: MessageView, f: FrameView, kept: Seq<u8>) -> MessageView {
    MessageView {
        kind: m.kind,
        timestamp: f.timestamp,
        prio: f.prio,
        src: f.src,
        dest: f.dest,
        data: kept + f.data.subrange(2, 8),
        counter_mask: f.data[0],
        next_packet: 1,
        remaining_bytes: (m.kind.spec_bytes() - min(m.kind.spec_bytes(), 6)) as nat,
    }
}

/// The fast-packet state machine: `m` after frame `f`, or why `f` is refused.
///
/// A single-frame message takes the bytes that it still misses from the frame.
/// In a fast packet the low five bits of the first data byte number the frame
/// within its sequence, and the second byte of a first frame gives the length.
/// A first frame brings six payload bytes, each following frame seven; a frame
/// whose sequence byte, XORed with that of the first frame, gives the count of
/// frames consumed is the next one. Any other first frame of the right length
/// starts the message anew.
pub open spec fn apply_frame(m: MessageView, f: FrameView) -> Result<MessageView, N2kMessageErr> {
    let bytes = m.kind.spec_bytes();
    let seq_byte = f.data[0];
    if !m.kind.spec_fast() {
        let take = min(m.remaining_bytes, 8);
        Ok(
            MessageView {
                kind: m.kind,
                timestamp: f.timestamp,
                prio: f.prio,
                src: f.src,
                dest: f.dest,
                data: m.data + f.data.subrange(0, take as int),
                counter_mask: m.counter_mask,
                next_packet: m.next_packet,
                remaining_bytes: (m.remaining_bytes - take) as nat,
            },
        )
    } else if m.next_packet == 0 && (seq_byte & 0x1F) == 0 {
        if f.data[1] as nat != bytes {
            Err(N2kMessageErr::UnexpectedLength)
        } else {
            Ok(begin(m, f, m.data))
        }
    } else if m.next_packet == (m.counter_mask ^ seq_byte) {
        let take = min(m.remaining_bytes, 7);
        Ok(
            MessageView {
                data: m.data + f.data.subrange(1, 1 + take as int),
                next_packet: next_count(m.next_packet),
                remaining_bytes: (m.remaining_bytes - take) as nat,
                ..m
            },
        )
    } else if (seq_byte & 0x1F) == 0 && f.data[1] as nat == bytes {
        Ok(begin(m, f, seq![]))
    } else {
        Err(N2kMessageErr::OutOfSequence)
    }
}

impl MessageView {
    /// The bookkeeping of reassembly: the bytes held and those missing add up
    /// to the catalogue length; a fast packet that has not started holds
    /// nothing, and one under way holds six bytes and seven per later frame.
    pub open spec fn wf(self) -> bool {
        &&& self.data.len() + self.remaining_bytes == self.kind.spec_bytes()
        &&& self.kind.spec_fast() && self.next_packet == 0 ==> self.data.len() == 0
            && self.counter_mask == 0
        &&& self.kind.spec_fast() && self.next_packet > 0 && self.remaining_bytes > 0
            ==> self.data.len() == 6 + 7 * (self.next_packet - 1)
    }
}

/// A fresh message is well formed and misses every byte.
pub proof fn lemma_fresh_wf(k: PgnKind)
    ensures
        fresh(k).wf(),
        fresh(k).remaining_bytes == k.spec_bytes(),
{
}

/// Each frame that a pending message accepts keeps its bookkeeping: the bytes
/// held and the bytes still missing add up to the catalogue length.
pub proof fn lemma_apply_keeps_length(m: MessageView, f: FrameView)
    requires
        m.wf(),
        m.remaining_bytes > 0,
        f.data.len() == 8,
    ensures
        match apply_frame(m, f) {
            Ok(v) => {
                &&& v.wf()
                &&& v.kind == m.kind
                &&& v.data.len() + v.remaining_bytes == m.kind.spec_bytes()
                &&& !m.kind.spec_fast() ==> v.remaining_bytes == 0
                &&& m.kind.spec_fast() ==> v.next_packet > 0
            },
            Err(_) => true,
        },
{
    lemma_catalogue(m.kind);
    let s = f.data[0];
    let bytes = m.kind.spec_bytes();
    assert((0u8 ^ s) == s) by (bit_vector);
    assert(s == 0 ==> (s & 0x1F) == 0) by (bit_vector);
    if !m.kind.spec_fast() {
        assert(min(m.remaining_bytes, 8) == m.remaining_bytes);
    } else if m.next_packet == 0 && (s & 0x1F) == 0 {
        if f.data[1] as nat == bytes {
            let v = begin(m, f, m.data);
            assert(v.data.len() == 6);
        }
    } else if m.next_packet == (m.counter_mask ^ s) {
        assert(m.next_packet > 0);
        assert(m.data.len() == 6 + 7 * (m.next_packet - 1));
        assert(m.next_packet < 7);
        let take = min(m.remaining_bytes, 7);
        let v = apply_frame(m, f)->Ok_0;
        assert(v.data.len() == m.data.len() + take);
        assert(v.next_packet == m.next_packet + 1);
    } else if (s & 0x1F) == 0 && f.data[1] as nat == bytes {
        let v = begin(m, f, seq![]);
        assert(v.data.len() == 6);
    }
}

/// A single-frame message that holds nothing yet is complete after one
/// frame, with the first catalogue-length bytes of that frame and its header.
pub proof fn lemma_single_frame_fills(m: MessageView, f: FrameView)
    requires
        !m.kind.spec_fast(),
        m.data.len() == 0,
        m.remaining_bytes == m.kind.spec_bytes(),
        f.data.len() == 8,
    ensures
        apply_frame(m, f) is Ok,
        ({
            let v = apply_frame(m, f)->Ok_0;
            &&& v.data == f.data.subrange(0, m.kind.spec_bytes() as int)
            &&& v.remaining_bytes == 0
            &&& v.timestamp == f.timestamp && v.prio == f.prio && v.src == f.src && v.dest == f.dest
        }),
{
    lemma_catalogue(m.kind);
    assert(m.data + f.data.subrange(0, m.kind.spec_bytes() as int) =~= f.data.subrange(
        0,
        m.kind.spec_bytes() as int,
    ));
}

/// Appends bytes `from..to` of a frame's data to `v`.
fn append_range(v: &mut Vec<u8>, a: &[u8; 8], from: usize, to: usize)
    requires
        from <= to <= 8,
    ensures
        final(v)@ == old(v)@ + a@.subrange(from as int, to as int),
{
    let mut i: usize = from;
    while i < to
        invariant
            from <= i <= to <= 8,
            v@ == old(v)@ + a@.subrange(from as int, i as int),
        decreases to - i,
    {
        v.push(a[i]);
        i += 1;
        assert(v@ =~= old(v)@ + a@.subrange(from as int, i as int));
    }
}

/// Messages that are filled from frames.
pub trait N2kFromRaw {
    /// Whether no byte is missing.
    fn is_complete(&self) -> bool;

    /// Adds one frame.
    fn from_raw(&mut self, raw: &YDRaw) -> Result<(), N2kMessageErr>;
}

impl Message {
    /// A message of kind `kind` that no frame has reached yet.
    pub fn new(kind: PgnKind) -> (r: Message)
        ensures
            r@ == fresh(kind),
    {
        Message {
            kind,
            timestamp: Timestamp::zero(),
            prio: 0,
            src: 0,
            dest: 0,
            data: Vec::new(),
            counter_mask: 0,
            next_packet: 0,
            remaining_bytes: kind.bytes(),
        }
    }

    /// Starts a fast packet anew from its first frame.
    fn begin_sequence(&mut self, raw: &YDRaw, keep: bool)
        ensures
            final(self)@ == begin(
                old(self)@,
                raw@,
                if keep {
                    old(self)@.data
                } else {
                    seq![]
                },
            ),
    {
        let bytes = self.kind.bytes();
        self.timestamp = raw.timestamp;
        self.src = raw.src;
        self.dest = raw.dest;
        self.prio = raw.prio;
        self.counter_mask = raw.data[0];
        self.next_packet = 1;
        self.remaining_bytes = if bytes < 6 {
            0
        } else {
            bytes - 6
        };
        if !keep {
            self.data.clear();
        }
        append_range(&mut self.data, &raw.data, 2, 8);
    }

    /// The values that the message decodes to.
    pub fn values(&self) -> (r: Vec<MessageValue>)
        requires
            self.data@.len() >= self.kind.spec_bytes(),
        ensures
            r@ == decode(self.kind, self.data@, self.timestamp),
    {
        values_of(self.kind, &self.data, self.timestamp)
    }
}

impl N2kFromRaw for Message {
    fn is_complete(&self) -> (r: bool)
        ensures
            r == (self.remaining_bytes == 0),
    {
        self.remaining_bytes == 0
    }

    fn from_raw(&mut self, raw: &YDRaw) -> (r: Result<(), N2kMessageErr>)
        ensures
            match apply_frame(old(self)@, raw@) {
                Ok(v) => r is Ok && final(self)@ == v,
                Err(e) => r == Err::<(), N2kMessageErr>(e) && final(self)@ == old(self)@,
            },
            old(self)@.wf() && old(self).remaining_bytes > 0 && r is Ok ==> final(self)@.wf()
                && final(self).data@.len() + final(self).remaining_bytes
                == final(self).kind.spec_bytes(),
    {
        proof {
            if old(self)@.wf() && old(self).remaining_bytes > 0 {
                lemma_apply_keeps_length(old(self)@, raw@);
            }
        }
        let bytes = self.kind.bytes();
        let seq_byte = raw.data[0];
        if !self.kind.is_fast() {
            let take: usize = if self.remaining_bytes < 8 {
                self.remaining_bytes
            } else {
                8
            };
            self.timestamp = raw.timestamp;
            self.src = raw.src;
            self.dest = raw.dest;
            self.prio = raw.prio;
            append_range(&mut self.data, &raw.data, 0, take);
            self.remaining_bytes = self.remaining_bytes - take;
            Ok(())
        } else if self.next_packet == 0 && (seq_byte & 0x1F) == 0 {
            if raw.data[1] as usize != bytes {
                return Err(N2kMessageErr::UnexpectedLength);
            }
            self.begin_sequence(raw, true);
            Ok(())
        } else if self.next_packet == (self.counter_mask ^ seq_byte) {
            let take: usize = if self.remaining_bytes < 7 {
                self.remaining_bytes
            } else {
                7
            };
            append_range(&mut self.data, &raw.data, 1, 1 + take);
            self.remaining_bytes = self.remaining_bytes - take;
            self.next_packet = if self.next_packet == 255 {
                0
            } else {
                self.next_packet + 1
            };
            Ok(())
        } else if (seq_byte & 0x1F) == 0 && raw.data[1] as usize == bytes {
            self.begin_sequence(raw, false);
            Ok(())
        } else {
            Err(N2kMessageErr::OutOfSequence)
        }
    }
}

} // verus!
