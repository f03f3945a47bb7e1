//! The reassembly engine: the table of pending messages, keyed by source and PGN.
use vstd::prelude::*;
use std::collections::HashMap;
use crate::types::{TPgn, TSrc};
use crate::messages::{kind_of, lemma_catalogue, PgnKind};
use crate::message::{
    apply_frame, begin, fresh, lemma_apply_keeps_length, lemma_fresh_wf, Message, MessageView,
    N2kFromRaw,
};
use crate::yd::{frame_of, line_fields, FrameView, YDRaw, YDRawParseError};

verus! {

/// Why a line gives no message.
#[derive(Clone, Copy, Debug, PartialEq, Eq, Structural)]
pub enum NMEA2000Error {
    /// The line is not in the raw frame format.
    RawFormatError,
    /// A number of the line is malformed.
    ParseIntError,
    /// The seconds of the line are malformed.
    ParseFloatError,
    /// A frame came out of sequence.
    PacketOutOfSequence,
    /// A first frame announced an unexpected length.
    UnexpectedPacketLength,
}

/// The error that a line error becomes.
pub open spec fn line_error(e: YDRawParseError) -> NMEA2000Error {
    match e {
        YDRawParseError::IntegerError => NMEA2000Error::ParseIntError,
        YDRawParseError::FloatError => NMEA2000Error::ParseFloatError,
        YDRawParseError::IteratorError => NMEA2000Error::RawFormatError,
        YDRawParseError::InvalidField => NMEA2000Error::RawFormatError,
    }
}

impl NMEA2000Error {
    pub fn from_line_error(e: YDRawParseError) -> (r: NMEA2000Error)
        ensures
            r == line_error(e),
    {
        match e {
            YDRawParseError::IntegerError => NMEA2000Error::ParseIntError,
            YDRawParseError::FloatError => NMEA2000Error::ParseFloatError,
            YDRawParseError::IteratorError => NMEA2000Error::RawFormatError,
            YDRawParseError::InvalidField => NMEA2000Error::RawFormatError,
        }
    }
}

/// The key of the pending message of a source and a PGN.
pub open spec fn key_of(src: TSrc, pgn: TPgn) -> u64 {
    ((src as u64) << 32u64) | (pgn as u64)
}

pub proof fn lemma_key_injective(s1: TSrc, p1: TPgn, s2: TSrc, p2: TPgn)
    ensures
        key_of(s1, p1) == key_of(s2, p2) ==> s1 == s2 && p1 == p2,
{
    assert((((s1 as u64) << 32u64) | (p1 as u64)) == (((s2 as u64) << 32u64) | (p2 as u64))
        ==> s1 == s2 && p1 == p2) by (bit_vector);
}

/// Every pending message is a fast packet under way of the kind that its PGN
/// names, well formed, and still misses bytes.
pub open spec fn table_wf(t: Map<u64, MessageView>) -> bool {
    forall|src: TSrc, pgn: TPgn| #[trigger]
        t.contains_key(key_of(src, pgn)) ==> {
            let m = t[key_of(src, pgn)];
            &&& kind_of(pgn) == Some(m.kind)
            &&& m.wf()
            &&& m.remaining_bytes > 0
            &&& m.kind.spec_fast()
            &&& m.next_packet > 0
        }
}

/// One frame through the engine: the pending table after it, and the message
/// that it completes, if any.
///
/// A frame of a PGN outside the catalogue changes nothing. Otherwise the frame
/// goes to the pending message of its source and PGN, or to a fresh one. A
/// refused frame drops that message; a message that misses no more bytes
/// leaves the table and is returned; any other is kept.
#[verifier::opaque]
pub open spec fn parser_step(t: Map<u64, MessageView>, f: FrameView) -> (
    Map<u64, MessageView>,
    Option<MessageView>,
) {
    match kind_of(f.pgn) {
        None => (t, None),
        Some(k) => {
            let key = key_of(f.src, f.pgn);
            let cur = if t.contains_key(key) {
                t[key]
            } else {
                fresh(k)
            };
            match apply_frame(cur, f) {
                Err(_) => (t.remove(key), None),
                Ok(v) => if v.remaining_bytes == 0 {
                    (t.remove(key), Some(v))
                } else {
                    (t.insert(key, v), None)
                },
            }
        },
    }
}

/// A first frame of a fast packet of kind `k`: frame number zero, and the
/// catalogue length in its second byte.
pub open spec fn starts_sequence(f: FrameView, k: PgnKind) -> bool {
    (f.data[0] & 0x1F) == 0 && f.data[1] as nat == k.spec_bytes()
}

/// The engine keeps the pending table well formed, and each message that it
/// returns holds exactly the catalogue length of bytes.
pub proof fn lemma_step_keeps_table_wf(t: Map<u64, MessageView>, f: FrameView)
    requires
        table_wf(t),
        f.data.len() == 8,
    ensures
        table_wf(parser_step(t, f).0),
        match parser_step(t, f).1 {
            Some(v) => kind_of(f.pgn) == Some(v.kind) && v.data.len() == v.kind.spec_bytes(),
            None => true,
        },
{
    reveal(parser_step);
    match kind_of(f.pgn) {
        None => {},
        Some(k) => {
            let key = key_of(f.src, f.pgn);
            let cur = if t.contains_key(key) {
                t[key]
            } else {
                fresh(k)
            };
            lemma_fresh_wf(k);
            lemma_catalogue(k);
            lemma_apply_keeps_length(cur, f);
            let t2 = parser_step(t, f).0;
            assert forall|src: TSrc, pgn: TPgn| #[trigger]
                t2.contains_key(key_of(src, pgn)) implies {
                let m = t2[key_of(src, pgn)];
                &&& kind_of(pgn) == Some(m.kind)
                &&& m.wf()
                &&& m.remaining_bytes > 0
                &&& m.kind.spec_fast()
                &&& m.next_packet > 0
            } by {
                lemma_key_injective(src, pgn, f.src, f.pgn);
                assert(t.contains_key(key_of(src, pgn)) || key_of(src, pgn) == key);
            }
        },
    }
}

/// A frame of a single-frame PGN yields its message at once: the message holds
/// exactly the catalogue length of bytes, and nothing stays pending for its
/// source and PGN. Where nothing was pending, those bytes are the first bytes
/// of the frame.
pub proof fn lemma_single_frame_message(t: Map<u64, MessageView>, f: FrameView, k: PgnKind)
    requires
        table_wf(t),
        f.data.len() == 8,
        kind_of(f.pgn) == Some(k),
        !k.spec_fast(),
    ensures
        ({
            let (t2, out) = parser_step(t, f);
            &&& out is Some
            &&& out->Some_0.data.len() == k.spec_bytes()
            &&& out->Some_0.kind == k
            &&& !t.contains_key(key_of(f.src, f.pgn)) ==> out->Some_0.data == f.data.subrange(
                0,
                k.spec_bytes() as int,
            )
            &&& t2 == t.remove(key_of(f.src, f.pgn))
        }),
{
    reveal(parser_step);
    let key = key_of(f.src, f.pgn);
    lemma_catalogue(k);
    lemma_fresh_wf(k);
    if t.contains_key(key) {
        assert(t[key].kind == k);
    } else {
        assert(seq![] + f.data.subrange(0, k.spec_bytes() as int) =~= f.data.subrange(
            0,
            k.spec_bytes() as int,
        ));
    }
    lemma_step_keeps_table_wf(t, f);
}

/// A second first frame for the same source and PGN, before the first sequence
/// is complete, silently drops that sequence: the table is then what the second
/// frame alone would have made of it.
pub proof fn lemma_restart_discards(
    t: Map<u64, MessageView>,
    f1: FrameView,
    f2: FrameView,
    k: PgnKind,
)
    requires
        f1.data.len() == 8,
        f2.data.len() == 8,
        f1.src == f2.src,
        f1.pgn == f2.pgn,
        kind_of(f1.pgn) == Some(k),
        k.spec_fast(),
        starts_sequence(f1, k),
        starts_sequence(f2, k),
        !t.contains_key(key_of(f1.src, f1.pgn)),
    ensures
        parser_step(t, f1).1 is None,
        parser_step(t, f1).0.contains_key(key_of(f1.src, f1.pgn)),
        parser_step(parser_step(t, f1).0, f2) == parser_step(t, f2),
        parser_step(t, f2).1 is None,
{
    reveal(parser_step);
    lemma_catalogue(k);
    let key = key_of(f1.src, f1.pgn);
    let a = f1.data[0];
    let b = f2.data[0];
    assert((a & 0x1F) == 0 && (b & 0x1F) == 0 ==> (a ^ b) != 1) by (bit_vector);
    let v1 = begin(fresh(k), f1, seq![]);
    let v2 = begin(fresh(k), f2, seq![]);
    assert(begin(v1, f2, seq![]) == v2);
    assert(t.insert(key, v1).insert(key, v2) =~= t.insert(key, v2));
}

/// A frame that is neither the next of the pending sequence nor a valid new
/// start yields nothing and drops what was pending for its source and PGN.
pub proof fn lemma_out_of_sequence_drops(t: Map<u64, MessageView>, f: FrameView)
    requires
        f.data.len() == 8,
        kind_of(f.pgn) is Some,
        t.contains_key(key_of(f.src, f.pgn)),
        t[key_of(f.src, f.pgn)].kind.spec_fast(),
        t[key_of(f.src, f.pgn)].next_packet != (t[key_of(f.src, f.pgn)].counter_mask ^ f.data[0]),
        !starts_sequence(f, t[key_of(f.src, f.pgn)].kind),
    ensures
        parser_step(t, f) == (t.remove(key_of(f.src, f.pgn)), None::<MessageView>),
{
    reveal(parser_step);
}

/// Frames fed one after another: the table after the last one, and what the
/// last one returned.
pub open spec fn run(t: Map<u64, MessageView>, fs: Seq<FrameView>) -> (
    Map<u64, MessageView>,
    Option<MessageView>,
)
    decreases fs.len(),
{
    if fs.len() == 0 {
        (t, None)
    } else if fs.len() == 1 {
        parser_step(t, fs[0])
    } else {
        run(parser_step(t, fs[0]).0, fs.subrange(1, fs.len() as int))
    }
}

/// A whole GNSS position sequence of one source: a first frame, then the six
/// following frames numbered 1 to 6 under the counter of the first.
pub open spec fn gnss_sequence(fs: Seq<FrameView>) -> bool {
    &&& fs.len() == 7
    &&& forall|i: int|
        0 <= i < 7 ==> (#[trigger] fs[i]).data.len() == 8 && fs[i].src == fs[0].src && fs[i].pgn
            == 129029
    &&& starts_sequence(fs[0], PgnKind::GnssPositionData)
    &&& forall|i: int| 1 <= i < 7 ==> (#[trigger] fs[i]).data[0] == (fs[0].data[0] | i as u8)
}

/// The payload of the first `k` frames of a sequence: six bytes of the first,
/// seven of each later one.
pub open spec fn assembled(fs: Seq<FrameView>, k: nat) -> Seq<u8>
    decreases k,
{
    if k <= 1 {
        fs[0].data.subrange(2, 8)
    } else {
        assembled(fs, (k - 1) as nat) + fs[k - 1].data.subrange(1, 8)
    }
}

/// The pending GNSS message after the first `k` frames of a sequence.
pub open spec fn partial(fs: Seq<FrameView>, k: nat) -> MessageView {
    MessageView {
        kind: PgnKind::GnssPositionData,
        timestamp: fs[0].timestamp,
        prio: fs[0].prio,
        src: fs[0].src,
        dest: fs[0].dest,
        data: assembled(fs, k),
        counter_mask: fs[0].data[0],
        next_packet: k as u8,
        remaining_bytes: (43 - (6 + 7 * (k - 1))) as nat,
    }
}

/// The complete GNSS message of a whole sequence.
pub open spec fn gnss_message(fs: Seq<FrameView>) -> MessageView {
    MessageView {
        data: assembled(fs, 6) + fs[6].data.subrange(1, 3),
        next_packet: 7,
        remaining_bytes: 0,
        ..partial(fs, 6)
    }
}

proof fn lemma_gnss_first(t: Map<u64, MessageView>, fs: Seq<FrameView>)
    requires
        gnss_sequence(fs),
        !t.contains_key(key_of(fs[0].src, 129029)),
    ensures
        parser_step(t, fs[0]) == (t.insert(key_of(fs[0].src, 129029), partial(fs, 1)), None::<
            MessageView,
        >),
{
    reveal(parser_step);
    assert(fs[0].data.len() == 8 && fs[0].pgn == 129029);
    assert(begin(fresh(PgnKind::GnssPositionData), fs[0], seq![]).data =~= assembled(fs, 1));
    assert(begin(fresh(PgnKind::GnssPositionData), fs[0], seq![]) == partial(fs, 1));
}

proof fn lemma_gnss_next(t: Map<u64, MessageView>, fs: Seq<FrameView>, k: int)
    requires
        gnss_sequence(fs),
        1 <= k < 6,
    ensures
        parser_step(t.insert(key_of(fs[0].src, 129029), partial(fs, k as nat)), fs[k]) == (
            t.insert(key_of(fs[0].src, 129029), partial(fs, (k + 1) as nat)),
            None::<MessageView>,
        ),
{
    reveal(parser_step);
    let key = key_of(fs[0].src, 129029);
    let c = fs[0].data[0];
    assert(fs[0].data.len() == 8);
    assert(fs[k].data.len() == 8 && fs[k].src == fs[0].src && fs[k].pgn == 129029);
    assert(fs[k].data[0] == (c | k as u8));
    let i = k as u8;
    assert((c & 0x1F) == 0 && i < 32 ==> (c ^ (c | i)) == i) by (bit_vector);
    let m = partial(fs, k as nat);
    let v = apply_frame(m, fs[k])->Ok_0;
    assert(v.data =~= assembled(fs, (k + 1) as nat));
    assert(v == partial(fs, (k + 1) as nat));
    assert(t.insert(key, m).insert(key, v) =~= t.insert(key, v));
}

proof fn lemma_gnss_last(t: Map<u64, MessageView>, fs: Seq<FrameView>)
    requires
        gnss_sequence(fs),
        !t.contains_key(key_of(fs[0].src, 129029)),
    ensures
        parser_step(t.insert(key_of(fs[0].src, 129029), partial(fs, 6)), fs[6]) == (t, Some(
            gnss_message(fs),
        )),
{
    reveal(parser_step);
    let key = key_of(fs[0].src, 129029);
    let c = fs[0].data[0];
    assert(fs[0].data.len() == 8);
    assert(fs[6].data.len() == 8 && fs[6].src == fs[0].src && fs[6].pgn == 129029);
    assert(fs[6].data[0] == (c | 6u8));
    assert((c & 0x1F) == 0 ==> (c ^ (c | 6u8)) == 6u8) by (bit_vector);
    let m = partial(fs, 6);
    let v = apply_frame(m, fs[6])->Ok_0;
    assert(v == gnss_message(fs));
    assert(t.insert(key, m).remove(key) =~= t);
}

proof fn lemma_gnss_tail(t: Map<u64, MessageView>, fs: Seq<FrameView>, k: int)
    requires
        gnss_sequence(fs),
        !t.contains_key(key_of(fs[0].src, 129029)),
        1 <= k <= 6,
    ensures
        run(t.insert(key_of(fs[0].src, 129029), partial(fs, k as nat)), fs.subrange(k, 7)) == (
            t,
            Some(gnss_message(fs)),
        ),
    decreases 6 - k,
{
    let key = key_of(fs[0].src, 129029);
    let sub = fs.subrange(k, 7);
    assert(sub[0] == fs[k]);
    if k < 6 {
        lemma_gnss_next(t, fs, k);
        lemma_gnss_tail(t, fs, k + 1);
        assert(sub.subrange(1, sub.len() as int) =~= fs.subrange(k + 1, 7));
    } else {
        lemma_gnss_last(t, fs);
        assert(sub.len() == 1);
    }
}

proof fn lemma_assembled_len(fs: Seq<FrameView>, k: nat)
    requires
        gnss_sequence(fs),
        1 <= k <= 6,
    ensures
        assembled(fs, k).len() == 6 + 7 * (k - 1),
    decreases k,
{
    assert(fs[0].data.len() == 8);
    if k > 1 {
        lemma_assembled_len(fs, (k - 1) as nat);
        assert(fs[k - 1].data.len() == 8);
    }
}

/// A whole GNSS position sequence, fed in order where nothing was pending for
/// its source, keeps the message pending through the first six frames, each
/// returning nothing, then returns it with the 43 bytes that the frames carry
/// and leaves the table as it was.
pub proof fn lemma_gnss_sequence(t: Map<u64, MessageView>, fs: Seq<FrameView>)
    requires
        gnss_sequence(fs),
        !t.contains_key(key_of(fs[0].src, 129029)),
    ensures
        parser_step(t, fs[0]) == (t.insert(key_of(fs[0].src, 129029), partial(fs, 1)), None::<
            MessageView,
        >),
        forall|k: int|
            1 <= k < 6 ==> parser_step(
                t.insert(key_of(fs[0].src, 129029), #[trigger] partial(fs, k as nat)),
                fs[k],
            ) == (t.insert(key_of(fs[0].src, 129029), partial(fs, (k + 1) as nat)), None::<
                MessageView,
            >),
        parser_step(t.insert(key_of(fs[0].src, 129029), partial(fs, 6)), fs[6]) == (t, Some(
            gnss_message(fs),
        )),
        run(t, fs) == (t, Some(gnss_message(fs))),
        gnss_message(fs).data.len() == 43,
        gnss_message(fs).timestamp == fs[0].timestamp,
{
    lemma_gnss_first(t, fs);
    assert forall|k: int| 1 <= k < 6 implies parser_step(
        t.insert(key_of(fs[0].src, 129029), #[trigger] partial(fs, k as nat)),
        fs[k],
    ) == (t.insert(key_of(fs[0].src, 129029), partial(fs, (k + 1) as nat)), None::<
        MessageView,
    >) by {
        lemma_gnss_next(t, fs, k);
    }
    lemma_gnss_last(t, fs);
    lemma_gnss_tail(t, fs, 1);
    assert(fs.subrange(1, 7) =~= fs.subrange(1, fs.len() as int));
    lemma_assembled_len(fs, 6);
    assert(fs[6].data.len() == 8);
}

/// Two first frames fed in a row for the same source and PGN, where nothing was
/// pending, followed by any frames: everything comes out as if the first had
/// never been seen.
pub proof fn lemma_restart_then_frames(
    t: Map<u64, MessageView>,
    a: FrameView,
    fs: Seq<FrameView>,
    k: PgnKind,
)
    requires
        fs.len() > 0,
        a.data.len() == 8,
        fs[0].data.len() == 8,
        a.src == fs[0].src,
        a.pgn == fs[0].pgn,
        kind_of(a.pgn) == Some(k),
        k.spec_fast(),
        starts_sequence(a, k),
        starts_sequence(fs[0], k),
        !t.contains_key(key_of(a.src, a.pgn)),
    ensures
        run(t, seq![a] + fs) == run(t, fs),
{
    lemma_restart_discards(t, a, fs[0], k);
    let s = seq![a] + fs;
    assert(s[0] == a);
    let t1 = parser_step(t, a).0;
    let rest = s.subrange(1, s.len() as int);
    assert(rest =~= fs);
    assert(run(t, s) == run(t1, fs));
    if fs.len() > 1 {
        assert(run(t1, fs) == run(parser_step(t1, fs[0]).0, fs.subrange(1, fs.len() as int)));
    }
}

/// A first frame whose sequence is cut short by a whole new GNSS position
/// sequence of the same source: only the new sequence's bytes come out, and the
/// table ends as it began.
pub proof fn lemma_restart_sequence(t: Map<u64, MessageView>, a: FrameView, fs: Seq<FrameView>)
    requires
        gnss_sequence(fs),
        a.data.len() == 8,
        a.src == fs[0].src,
        a.pgn == 129029,
        starts_sequence(a, PgnKind::GnssPositionData),
        !t.contains_key(key_of(a.src, a.pgn)),
    ensures
        parser_step(t, a).1 is None,
        run(t, seq![a] + fs) == (t, Some(gnss_message(fs))),
{
    assert(fs[0].data.len() == 8 && fs[0].pgn == 129029);
    lemma_restart_discards(t, a, fs[0], PgnKind::GnssPositionData);
    lemma_restart_then_frames(t, a, fs, PgnKind::GnssPositionData);
    lemma_gnss_sequence(t, fs);
}

/// The reassembly engine.
pub struct Parser {
    messages: HashMap<u64, Message>,
}

impl View for Parser {
    type V = Map<u64, MessageView>;

    closed spec fn view(&self) -> Map<u64, MessageView> {
        self.messages@.map_values(|m: Message| m@)
    }
}

impl Parser {
    /// An engine with nothing pending.
    pub fn new() -> (r: Parser)
        ensures
            r@ == Map::<u64, MessageView>::empty(),
            table_wf(r@),
    {
        let p = Parser { messages: HashMap::new() };
        assert(p@ =~= Map::<u64, MessageView>::empty());
        p
    }

    /// Whether a message of source `src` and PGN `pgn` is pending.
    pub fn is_pending(&self, src: TSrc, pgn: TPgn) -> (r: bool)
        ensures
            r == self@.contains_key(key_of(src, pgn)),
    {
        let key: u64 = ((src as u64) << 32u64) | (pgn as u64);
        self.messages.contains_key(&key)
    }

    /// Feeds one frame; returns the message that it completes, if any.
    pub fn parse_from_raw(&mut self, raw: &YDRaw) -> (r: Option<Message>)
        ensures
            final(self)@ == parser_step(old(self)@, raw@).0,
            match r {
                Some(m) => parser_step(old(self)@, raw@).1 == Some(m@),
                None => parser_step(old(self)@, raw@).1 is None,
            },
            table_wf(old(self)@) ==> table_wf(final(self)@),
            table_wf(old(self)@) && r is Some ==> r->Some_0.data@.len()
                == r->Some_0.kind.spec_bytes() && kind_of(raw.pgn) == Some(r->Some_0.kind),
    {
        proof {
            reveal(parser_step);
            if table_wf(self@) {
                lemma_step_keeps_table_wf(self@, raw@);
            }
        }
        let ghost t = self@;
        let kind = match PgnKind::from_pgn(raw.pgn) {
            Some(k) => k,
            None => return None,
        };
        let key: u64 = ((raw.src as u64) << 32u64) | (raw.pgn as u64);
        assert(key == key_of(raw.src, raw.pgn));
        let mut message = match self.messages.remove(&key) {
            Some(m) => m,
            None => Message::new(kind),
        };
        assert(self@ =~= t.remove(key));
        match message.from_raw(raw) {
            Err(_) => {
                return None;
            },
            Ok(()) => {},
        }
        if message.is_complete() {
            Some(message)
        } else {
            self.messages.insert(key, message);
            assert(self@ =~= t.insert(key, message@));
            None
        }
    }

    /// Reads one line of the raw format and feeds its frame.
    pub fn parse(&mut self, src: &str) -> (r: Result<Option<Message>, NMEA2000Error>)
        ensures
            match line_fields(src@) {
                Err(e) => r == Err::<Option<Message>, NMEA2000Error>(line_error(e))
                    && final(self)@ == old(self)@,
                Ok((ts, _, id, d)) => {
                    let (t, out) = parser_step(old(self)@, frame_of(ts, id, d));
                    &&& final(self)@ == t
                    &&& match r {
                        Ok(Some(m)) => out == Some(m@),
                        Ok(None) => out is None,
                        Err(_) => false,
                    }
                },
            },
            table_wf(old(self)@) ==> table_wf(final(self)@),
            table_wf(old(self)@) ==> match r {
                Ok(Some(m)) => m.data@.len() == m.kind.spec_bytes(),
                _ => true,
            },
    {
        match YDRaw::from_str(src) {
            Err(e) => Err(NMEA2000Error::from_line_error(e)),
            Ok(raw) => Ok(self.parse_from_raw(&raw)),
        }
    }
}

} // verus!
