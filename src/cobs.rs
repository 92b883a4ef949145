//! Consistent Overhead Byte Stuffing (COBS) framing.
//!
//! Turns an arbitrary byte stream into a sequence of packets, after Cheshire and
//! Baker, "Consistent Overhead Byte Stuffing", IEEE/ACM Transactions on
//! Networking 7(2), 1999. A sentinel byte (normally 0) ends each packet. If sync
//! is lost the decoder resynchronises at the start of the next packet. Packets
//! longer than [`MAX_PACKET_LEN`] are discarded. Statistics are kept of the bytes
//! and packets seen; they saturate at their largest value.
use vstd::prelude::*;

verus! {

/// Default value of the sentinel (inter-packet marker) byte.
pub const DEFAULT_SENTINEL: u8 = 0;

/// Maximum length of an unencoded packet.
pub const MAX_PACKET_LEN: usize = 8192;

/// Maximum length of an encoded packet: a start run length, at most one extra byte
/// per 254 bytes of data, and an end sentinel.
pub const MAX_ENC_PACKET_LEN: usize = 8226;

/// Current state of the decoder.
#[derive(Debug, Clone, Copy, PartialEq, Eq, Structural)]
pub enum DecoderState {
    /// Waiting for a packet to start (a non-sentinel byte to arrive)
    Idle,
    /// In the process of receiving a packet
    Rxing,
    /// Waiting for a sentinel byte, after an error
    Flushing,
}

/// What is to be done with one byte of input.
#[derive(Debug, Clone, Copy, PartialEq, Eq, Structural)]
pub enum TokenResult {
    /// Something wrong in the reception
    Error,
    /// We are flushing the stream
    Flushing,
    /// Store this
    Store,
    /// Ignore this (wait for more)
    NoAction,
    /// Reception is complete
    Complete,
}

/// Indication of whether a packet is complete after feeding byte(s) to the decoder.
#[derive(Debug, Clone, Copy, PartialEq, Eq, Structural)]
pub enum ConsumeResult {
    /// The packet is not yet assembled
    Incomplete,
    /// The packet is assembled
    Complete,
}

/// Errors from use of the framer.
#[derive(Debug, Clone, Copy, PartialEq, Eq, Structural)]
pub enum CobsError {
    /// Enough data for packet not received
    Timeout,
    /// Packet is not yet complete
    Ongoing,
    /// Packet is too long
    Overlong,
    /// Insufficent data in buffer to complete the packet
    ShortData,
    /// Request to build packet of zero length
    ZeroLength,
    /// Too busy to perform requested action
    Busy,
}

impl CobsError {
    /// Human readable description of the error.
    pub fn description(&self) -> (r: &'static str) {
        match self {
            CobsError::Timeout => "Timeout",
            CobsError::Ongoing => "Packet is ongoing",
            CobsError::Overlong => "Packet is too long",
            CobsError::ShortData => "Insuffient data to complete packet",
            CobsError::ZeroLength => "Zero length packet",
            CobsError::Busy => "Busy",
        }
    }
}

/// The decoder.
#[derive(Debug, Clone, Copy, PartialEq, Eq)]
pub struct Cobs {
    state: DecoderState,
    sentinel: u8,
    rxc: u8,
    maxcount: bool,
    inbytes: u64,
    goodbytes: u64,
    badbytes: u64,
    packets: u64,
    toolong: u64,
}

/// Addition of a length to a statistic, saturating at the largest value.
pub open spec fn sat_add(a: u64, n: nat) -> u64 {
    if a + n > u64::MAX {
        u64::MAX
    } else {
        (a + n) as u64
    }
}

/// The state table of the decoder: for one byte, the new decoder state, the value
/// to be stored, and what is to be done with it. Statistics are left as they are.
pub closed spec fn token_step(c: Cobs, tok: u8) -> (Cobs, u8, TokenResult) {
    match c.state {
        DecoderState::Idle => if tok != c.sentinel {
            (Cobs { rxc: tok, maxcount: tok == 255, state: DecoderState::Rxing, ..c }, 0, TokenResult::NoAction)
        } else {
            (c, 0, TokenResult::NoAction)
        },
        DecoderState::Rxing => {
            let rxc = c.rxc.wrapping_sub(1);
            if rxc == 0 {
                if tok == c.sentinel {
                    (Cobs { rxc, state: DecoderState::Idle, ..c }, tok, TokenResult::Complete)
                } else {
                    (
                        Cobs { rxc: tok, maxcount: tok == 255, ..c },
                        c.sentinel,
                        if !c.maxcount {
                            TokenResult::Store
                        } else {
                            TokenResult::NoAction
                        },
                    )
                }
            } else if tok == c.sentinel {
                (Cobs { rxc, state: DecoderState::Flushing, ..c }, tok, TokenResult::Error)
            } else {
                (Cobs { rxc, ..c }, tok, TokenResult::Store)
            }
        },
        DecoderState::Flushing => if tok != c.sentinel {
            (c, tok, TokenResult::Flushing)
        } else {
            (Cobs { state: DecoderState::Idle, ..c }, c.sentinel, TokenResult::NoAction)
        },
    }
}

/// One byte fed to the decoder that is assembling packet `op`: the new decoder,
/// the new packet, and whether the packet is now complete.
pub closed spec fn feed(c: Cobs, op: Seq<u8>, tok: u8) -> (Cobs, Seq<u8>, bool) {
    let c0 = Cobs { inbytes: sat_add(c.inbytes, 1), ..c };
    let (c1, val, action) = token_step(c0, tok);
    match action {
        TokenResult::Error => (
            Cobs { badbytes: sat_add(c1.badbytes, op.len()), ..c1 },
            Seq::empty(),
            false,
        ),
        TokenResult::Flushing => (Cobs { badbytes: sat_add(c1.badbytes, 1), ..c1 }, op, false),
        TokenResult::NoAction => (c1, op, false),
        TokenResult::Store => if op.len() < MAX_PACKET_LEN {
            (c1, op.push(val), false)
        } else {
            (
                Cobs {
                    badbytes: sat_add(c1.badbytes, op.len()),
                    toolong: sat_add(c1.toolong, 1),
                    state: DecoderState::Flushing,
                    ..c1
                },
                Seq::empty(),
                false,
            )
        },
        TokenResult::Complete => (
            Cobs {
                packets: sat_add(c1.packets, 1),
                goodbytes: sat_add(c1.goodbytes, op.len()),
                ..c1
            },
            op,
            true,
        ),
    }
}

/// Bytes fed one by one until a packet completes or the bytes run out: the new
/// decoder, the new packet, how many bytes were taken, and whether a packet completed.
pub open spec fn feed_until(c: Cobs, op: Seq<u8>, bytes: Seq<u8>) -> (Cobs, Seq<u8>, nat, bool)
    decreases bytes.len(),
{
    if bytes.len() == 0 {
        (c, op, 0, false)
    } else {
        let (c1, op1, done) = feed(c, op, bytes[0]);
        if done {
            (c1, op1, 1, true)
        } else {
            let (c2, op2, k, d2) = feed_until(c1, op1, bytes.drop_first());
            (c2, op2, k + 1, d2)
        }
    }
}

/// Number of leading non-sentinel bytes of `q`, at most 254: the data of the first
/// run of its encoding.
pub open spec fn run_len(q: Seq<u8>, s: u8) -> nat
    decreases q.len(),
{
    if q.len() == 0 || q[0] == s {
        0
    } else {
        let t = run_len(q.drop_first(), s);
        if t >= 254 {
            254
        } else {
            t + 1
        }
    }
}

/// The runs of the encoding of `p` with sentinel `s`, without the closing sentinel.
/// Each run is a length byte followed by data bytes. A run ends at a sentinel of the
/// input, which it stands for, or after 254 data bytes where more input follows.
pub open spec fn cobs_runs(p: Seq<u8>, s: u8) -> Seq<u8>
    decreases p.len(),
{
    let k = run_len(p, s);
    if k == 254 && p.len() > 254 {
        seq![255u8] + p.subrange(0, 254) + cobs_runs(p.subrange(254, p.len() as int), s)
    } else if k >= p.len() {
        seq![(k + 1) as u8] + p
    } else {
        seq![(k + 1) as u8] + p.subrange(0, k as int) + cobs_runs(
            p.subrange(k + 1 as int, p.len() as int),
            s,
        )
    }
}

/// The COBS encoding of `p` with sentinel `s`.
pub open spec fn cobs_encoding(p: Seq<u8>, s: u8) -> Seq<u8> {
    cobs_runs(p, s).push(s)
}

proof fn lemma_run_len(q: Seq<u8>, s: u8, k: nat)
    requires
        k <= q.len(),
        forall|j: int| 0 <= j < k ==> q[j] != s,
    ensures
        run_len(q, s) <= 254,
        run_len(q, s) >= if k < 254 { k } else { 254 },
        (k == q.len() || q[k as int] == s) && k <= 254 ==> run_len(q, s) == k,
    decreases q.len(),
{
    if k > 0 {
        lemma_run_len(q.drop_first(), s, (k - 1) as nat);
    } else if q.len() > 0 && q[0] != s {
        lemma_run_len(q.drop_first(), s, 0);
    }
}

/// Facts about the data of the first run: its bytes are not sentinels, and a run
/// shorter than the rest of the input and than 254 bytes stops at a sentinel.
proof fn lemma_run_len_facts(q: Seq<u8>, s: u8)
    ensures
        run_len(q, s) <= q.len(),
        run_len(q, s) <= 254,
        forall|j: int| 0 <= j < run_len(q, s) ==> q[j] != s,
        run_len(q, s) < q.len() && run_len(q, s) < 254 ==> q[run_len(q, s) as int] == s,
    decreases q.len(),
{
    if q.len() > 0 && q[0] != s {
        let t = q.drop_first();
        lemma_run_len_facts(t, s);
        assert forall|j: int| 0 <= j < run_len(q, s) implies q[j] != s by {
            if j > 0 {
                assert(q[j] == t[j - 1]);
            }
        }
        if run_len(q, s) < q.len() && run_len(q, s) < 254 {
            assert(q[run_len(q, s) as int] == t[run_len(t, s) as int]);
        }
    }
}

/// Feeding one byte: statistics below saturation keep the byte accounting, with a
/// completed packet handed over.
proof fn lemma_feed_accounted(c: Cobs, op: Seq<u8>, tok: u8)
    requires
        c.accounted(op.len()),
        c.inbytes < u64::MAX,
    ensures
        feed(c, op, tok).0.accounted(if feed(c, op, tok).2 { 0 } else { feed(c, op, tok).1.len() }),
{
}

/// Byte accounting: while the input count stays below saturation, every byte that was
/// counted as good or bad, and every byte of the packet being assembled, was counted
/// as input. A completed packet is handed over to the caller and no longer open.
pub proof fn lemma_byte_accounting(c: Cobs, op: Seq<u8>, bytes: Seq<u8>)
    requires
        c.accounted(op.len()),
        c.spec_stats().0 + bytes.len() <= u64::MAX,
    ensures
        ({
            let r = feed_until(c, op, bytes);
            r.0.accounted(if r.3 { 0 } else { r.1.len() })
        }),
    decreases bytes.len(),
{
    if bytes.len() > 0 {
        lemma_feed_accounted(c, op, bytes[0]);
        let (c1, op1, done) = feed(c, op, bytes[0]);
        if !done {
            lemma_byte_accounting(c1, op1, bytes.drop_first());
        }
    }
}

/// Bounded output: a packet being assembled never grows past [`MAX_PACKET_LEN`]; a
/// packet that would is dropped instead.
pub proof fn lemma_packet_within_capacity(c: Cobs, op: Seq<u8>, bytes: Seq<u8>)
    requires
        op.len() <= MAX_PACKET_LEN,
    ensures
        feed_until(c, op, bytes).1.len() <= MAX_PACKET_LEN,
    decreases bytes.len(),
{
    if bytes.len() > 0 {
        let (c1, op1, done) = feed(c, op, bytes[0]);
        if !done {
            lemma_packet_within_capacity(c1, op1, bytes.drop_first());
        }
    }
}

/// Resynchronisation: from any state, two sentinel bytes leave the decoder waiting
/// for the next packet.
pub proof fn lemma_two_sentinels_resync(c: Cobs, op: Seq<u8>)
    ensures
        ({
            let r1 = feed(c, op, c.spec_sentinel());
            let r2 = feed(r1.0, r1.1, c.spec_sentinel());
            r2.0.is_idle()
        }),
{
}

/// The packet as the decoder will have it once it reads the next run length: after a
/// run that stood for a sentinel, the sentinel is added then.
spec fn pending(c: Cobs, op: Seq<u8>) -> Seq<u8> {
    if c.state == DecoderState::Idle || c.maxcount {
        op
    } else {
        op.push(c.sentinel)
    }
}

/// The data bytes of a run are stored one by one.
proof fn lemma_feed_run_data(c: Cobs, op: Seq<u8>, data: Seq<u8>, tail: Seq<u8>) -> (c2: Cobs)
    requires
        c.state == DecoderState::Rxing,
        c.rxc == data.len() + 1,
        forall|j: int| 0 <= j < data.len() ==> data[j] != c.sentinel,
        op.len() + data.len() <= MAX_PACKET_LEN,
    ensures
        c2.state == DecoderState::Rxing,
        c2.rxc == 1,
        c2.maxcount == c.maxcount,
        c2.sentinel == c.sentinel,
        ({
            let a = feed_until(c, op, data + tail);
            let b = feed_until(c2, op + data, tail);
            &&& a.0 == b.0
            &&& a.1 == b.1
            &&& a.2 == b.2 + data.len()
            &&& a.3 == b.3
        }),
    decreases data.len(),
{
    if data.len() == 0 {
        assert(data + tail =~= tail);
        assert(op + data =~= op);
        c
    } else {
        let (c1, op1, done) = feed(c, op, data[0]);
        assert((data + tail).drop_first() =~= data.drop_first() + tail);
        assert(op1 == op.push(data[0]));
        let c2 = lemma_feed_run_data(c1, op1, data.drop_first(), tail);
        assert(op1 + data.drop_first() =~= op + data);
        c2
    }
}

/// Decoding the runs of `p` and the closing sentinel, from a decoder about to read a
/// run length, completes the packet with `p` added, as the encoding ends.
proof fn lemma_runs_decode(c: Cobs, op: Seq<u8>, p: Seq<u8>)
    requires
        c.sentinel == 0,
        c.state == DecoderState::Idle || (c.state == DecoderState::Rxing && c.rxc == 1),
        pending(c, op).len() + p.len() <= MAX_PACKET_LEN,
    ensures
        ({
            let r = feed_until(c, op, cobs_runs(p, 0).push(0));
            &&& r.3
            &&& r.1 == pending(c, op) + p
            &&& r.2 == cobs_runs(p, 0).len() + 1
            &&& r.0.state == DecoderState::Idle
        }),
    decreases p.len(),
{
    lemma_run_len_facts(p, 0);
    let k = run_len(p, 0);
    let code = (k + 1) as u8;
    let enc = cobs_runs(p, 0).push(0);
    let (c1, pre, done1) = feed(c, op, code);
    assert(pre == pending(c, op));
    assert(!done1);
    assert(c1.state == DecoderState::Rxing && c1.rxc == code && c1.maxcount == (code == 255));
    if k == 254 && p.len() > 254 {
        let data = p.subrange(0, 254);
        let rest = p.subrange(254, p.len() as int);
        let tail = cobs_runs(rest, 0).push(0);
        assert(enc =~= seq![code] + (data + tail));
        assert(enc.drop_first() =~= data + tail);
        let c2 = lemma_feed_run_data(c1, pre, data, tail);
        lemma_runs_decode(c2, pre + data, rest);
        assert(pending(c2, pre + data) == pre + data);
        assert(pre + data + rest =~= pre + p);
    } else if k >= p.len() {
        let tail = seq![0u8];
        assert(enc =~= seq![code] + (p + tail));
        assert(enc.drop_first() =~= p + tail);
        let c2 = lemma_feed_run_data(c1, pre, p, tail);
        assert(tail.drop_first() =~= Seq::<u8>::empty());
    } else {
        let data = p.subrange(0, k as int);
        let rest = p.subrange(k + 1 as int, p.len() as int);
        let tail = cobs_runs(rest, 0).push(0);
        assert(enc =~= seq![code] + (data + tail));
        assert(enc.drop_first() =~= data + tail);
        let c2 = lemma_feed_run_data(c1, pre, data, tail);
        lemma_runs_decode(c2, pre + data, rest);
        assert(p[k as int] == 0);
        assert((pre + data).push(0) + rest =~= pre + p);
    }
}

/// Round trip: with sentinel 0, a decoder waiting for a packet that is fed the
/// encoding of a packet of allowed length completes exactly that packet, as the
/// encoding ends, and waits for the next one.
pub proof fn lemma_encode_decode_round_trip(c: Cobs, p: Seq<u8>)
    requires
        c.is_idle(),
        c.spec_sentinel() == 0,
        1 <= p.len() <= MAX_PACKET_LEN,
    ensures
        ({
            let r = feed_until(c, Seq::empty(), cobs_encoding(p, 0));
            &&& r.3
            &&& r.1 == p
            &&& r.2 == cobs_encoding(p, 0).len()
            &&& r.0.is_idle()
        }),
{
    lemma_runs_decode(c, Seq::empty(), p);
    assert(pending(c, Seq::empty()) + p =~= p);
}

impl Cobs {
    /// The decoder is waiting for a packet to start.
    pub closed spec fn is_idle(&self) -> bool {
        self.state == DecoderState::Idle
    }

    /// A packet is being received.
    pub closed spec fn is_receiving(&self) -> bool {
        self.state == DecoderState::Rxing
    }

    /// This decoder with another sentinel byte.
    pub closed spec fn with_sentinel(&self, s: u8) -> Cobs {
        Cobs { sentinel: s, ..*self }
    }

    /// This decoder after a partial packet of `n` bytes was abandoned: the bytes are
    /// counted as bad and the decoder waits for the next sentinel.
    pub closed spec fn abandoned(&self, n: nat) -> Cobs {
        Cobs { badbytes: sat_add(self.badbytes, n), state: DecoderState::Flushing, ..*self }
    }

    /// The sentinel byte in use.
    pub closed spec fn spec_sentinel(&self) -> u8 {
        self.sentinel
    }

    /// Statistics: (input bytes, good bytes, bad bytes, packets, overlong packets).
    pub closed spec fn spec_stats(&self) -> (u64, u64, u64, u64, u64) {
        (self.inbytes, self.goodbytes, self.badbytes, self.packets, self.toolong)
    }

    /// Every good or bad byte, and every byte of the open packet, was counted as input.
    pub closed spec fn accounted(&self, open: nat) -> bool {
        self.goodbytes + self.badbytes + open <= self.inbytes
    }

    /// A new instance.
    pub closed spec fn spec_new() -> Cobs {
        Cobs {
            state: DecoderState::Idle,
            sentinel: DEFAULT_SENTINEL,
            rxc: 0,
            maxcount: false,
            inbytes: 0,
            goodbytes: 0,
            badbytes: 0,
            packets: 0,
            toolong: 0,
        }
    }

    /// New instance: zeroed statistics, default sentinel, waiting for a packet.
    pub fn new() -> (r: Cobs)
        ensures
            r == Cobs::spec_new(),
            r.is_idle(),
            r.spec_sentinel() == DEFAULT_SENTINEL,
            r.spec_stats() == (0u64, 0u64, 0u64, 0u64, 0u64),
    {
        Cobs {
            state: DecoderState::Idle,
            sentinel: DEFAULT_SENTINEL,
            rxc: 0,
            maxcount: false,
            inbytes: 0,
            goodbytes: 0,
            badbytes: 0,
            packets: 0,
            toolong: 0,
        }
    }

    /// Change the sentinel value. Refused with `Busy` while a packet is being
    /// received, unless `force` is set.
    pub fn set_sentinel(&mut self, set_sentinel: u8, force: bool) -> (r: Result<(), CobsError>)
        ensures
            r is Ok <==> (!old(self).is_receiving() || force),
            r is Ok ==> *final(self) == old(self).with_sentinel(set_sentinel),
            r is Err ==> r == Err::<(), CobsError>(CobsError::Busy) && *final(self) == *old(self),
    {
        if self.state != DecoderState::Rxing || force {
            self.sentinel = set_sentinel;
            Ok(())
        } else {
            Err(CobsError::Busy)
        }
    }

    /// Statistics: (input bytes, good bytes, bad bytes, packets, overlong packets).
    pub fn stats(&mut self) -> (r: (u64, u64, u64, u64, u64))
        ensures
            r == old(self).spec_stats(),
            *final(self) == *old(self),
    {
        (self.inbytes, self.goodbytes, self.badbytes, self.packets, self.toolong)
    }

    /// Run one byte through the state table.
    fn process_token(&mut self, tok: u8) -> (r: (u8, TokenResult))
        ensures
            (*final(self), r.0, r.1) == token_step(*old(self), tok),
    {
        match self.state {
            DecoderState::Idle => {
                if tok != self.sentinel {
                    self.rxc = tok;
                    self.maxcount = tok == 255;
                    self.state = DecoderState::Rxing;
                }
                (0, TokenResult::NoAction)
            },
            DecoderState::Rxing => {
                self.rxc = self.rxc.wrapping_sub(1);
                if 0 == self.rxc {
                    if self.sentinel == tok {
                        self.state = DecoderState::Idle;
                        (tok, TokenResult::Complete)
                    } else {
                        let action = if !self.maxcount {
                            TokenResult::Store
                        } else {
                            TokenResult::NoAction
                        };
                        self.rxc = tok;
                        self.maxcount = tok == 255;
                        (self.sentinel, action)
                    }
                } else {
                    if self.sentinel == tok {
                        self.state = DecoderState::Flushing;
                        (tok, TokenResult::Error)
                    } else {
                        (tok, TokenResult::Store)
                    }
                }
            },
            DecoderState::Flushing => {
                if self.sentinel != tok {
                    (tok, TokenResult::Flushing)
                } else {
                    self.state = DecoderState::Idle;
                    (self.sentinel, TokenResult::NoAction)
                }
            },
        }
    }

    /// Pass a single byte through the packet assembler, which builds the packet in
    /// `op`. Returns `Ok` when the packet is complete, `Err(Ongoing)` otherwise. A
    /// packet that would grow past [`MAX_PACKET_LEN`] is dropped and counted.
    pub fn get_byte(&mut self, c: u8, op: &mut Vec<u8>) -> (r: Result<(), CobsError>)
        ensures
            (*final(self), final(op)@, r is Ok) == feed(*old(self), old(op)@, c),
            r is Err ==> r == Err::<(), CobsError>(CobsError::Ongoing),
    {
        self.inbytes = self.inbytes.saturating_add(1);
        let (val, action) = self.process_token(c);
        match action {
            TokenResult::Error => {
                self.badbytes = self.badbytes.saturating_add(op.len() as u64);
                op.clear();
            },
            TokenResult::Flushing => {
                self.badbytes = self.badbytes.saturating_add(1);
            },
            TokenResult::NoAction => {},
            TokenResult::Store => {
                if op.len() < MAX_PACKET_LEN {
                    op.push(val);
                } else {
                    self.badbytes = self.badbytes.saturating_add(op.len() as u64);
                    self.toolong = self.toolong.saturating_add(1);
                    op.clear();
                    self.state = DecoderState::Flushing;
                }
            },
            TokenResult::Complete => {
                self.packets = self.packets.saturating_add(1);
                self.goodbytes = self.goodbytes.saturating_add(op.len() as u64);
                proof {
                    assert(*old(op) == *op);
                }
                return Ok(());
            },
        }
        proof {
            assert(op@ =~= feed(*old(self), old(op)@, c).1);
        }
        Err(CobsError::Ongoing)
    }

    /// Feed the bytes of `data` from position `pos` on through the packet assembler
    /// until a packet is complete in `op` (`Ok`) or the bytes run out (`ShortData`);
    /// `pos` moves past the bytes taken. A packet cut short is extended by later
    /// calls with the same `op`.
    pub fn get_frame(&mut self, data: &[u8], pos: &mut usize, op: &mut Vec<u8>) -> (r: Result<
        (),
        CobsError,
    >)
        requires
            *old(pos) <= data@.len(),
        ensures
            ({
                let res = feed_until(
                    *old(self),
                    old(op)@,
                    data@.subrange(*old(pos) as int, data@.len() as int),
                );
                &&& *final(self) == res.0
                &&& final(op)@ == res.1
                &&& *final(pos) == *old(pos) + res.2
                &&& (r is Ok <==> res.3)
            }),
            *final(pos) <= data@.len(),
            r is Err ==> r == Err::<(), CobsError>(CobsError::ShortData) && *final(pos)
                == data@.len(),
    {
        let ghost c0 = *self;
        let ghost op0 = op@;
        let ghost start = *pos;
        let ghost res = feed_until(c0, op0, data@.subrange(start as int, data@.len() as int));
        while *pos < data.len()
            invariant
                start <= *pos <= data@.len(),
                c0 == *old(self),
                op0 == old(op)@,
                start == *old(pos),
                res == feed_until(c0, op0, data@.subrange(start as int, data@.len() as int)),
                ({
                    let cur = feed_until(*self, op@, data@.subrange(*pos as int, data@.len() as int));
                    &&& cur.0 == res.0
                    &&& cur.1 == res.1
                    &&& cur.2 + (*pos - start) == res.2
                    &&& cur.3 == res.3
                }),
            decreases data@.len() - *pos,
        {
            let ghost rest = data@.subrange(*pos as int, data@.len() as int);
            assert(rest.drop_first() =~= data@.subrange(*pos + 1, data@.len() as int));
            let ghost before = *self;
            let ghost op_before = op@;
            let t = data[*pos];
            *pos = *pos + 1;
            match self.get_byte(t, op) {
                Ok(()) => {
                    assert(feed_until(before, op_before, rest) == (*self, op@, 1nat, true));
                    return Ok(());
                },
                Err(_) => {},
            }
        }
        assert(data@.subrange(*pos as int, data@.len() as int) =~= Seq::<u8>::empty());
        Err(CobsError::ShortData)
    }

    /// Like [`Cobs::get_frame`], but into a packet of its own, returned when complete.
    /// When the bytes run out first, the partial packet is counted as bad and the
    /// decoder waits for the next sentinel.
    pub fn get_frame_as_vec(&mut self, data: &[u8], pos: &mut usize) -> (r: Result<
        Vec<u8>,
        CobsError,
    >)
        requires
            *old(pos) <= data@.len(),
        ensures
            ({
                let res = feed_until(
                    *old(self),
                    Seq::empty(),
                    data@.subrange(*old(pos) as int, data@.len() as int),
                );
                &&& *final(pos) == *old(pos) + res.2
                &&& (r is Ok <==> res.3)
                &&& r matches Ok(v) ==> v@ == res.1 && *final(self) == res.0
                &&& r is Err ==> *final(self) == res.0.abandoned(res.1.len())
            }),
            r is Err ==> r == Err::<Vec<u8>, CobsError>(CobsError::ShortData),
    {
        let mut op: Vec<u8> = Vec::new();
        assert(op@ =~= Seq::<u8>::empty());
        match self.get_frame(data, pos, &mut op) {
            Ok(()) => Ok(op),
            Err(r) => {
                self.badbytes = self.badbytes.saturating_add(op.len() as u64);
                self.state = DecoderState::Flushing;
                Err(r)
            },
        }
    }

    /// Worst case length of the encoding of a packet of `ip_len` bytes: a start run
    /// length, one more run length per 254 bytes, and the end sentinel.
    pub fn max_possible_enc_len(ip_len: usize) -> (r: usize)
        requires
            ip_len + ip_len / 254 + 2 <= usize::MAX,
        ensures
            r == 1 + ip_len + ip_len / 254 + 1,
    {
        1 + ip_len + ip_len / 254 + 1
    }

    /// Encode `ip` into a new packet, with the sentinel of this instance.
    pub fn cobs_encode_into_vec(self, ip: &Vec<u8>) -> (r: Result<Vec<u8>, CobsError>)
        ensures
            (r == Err::<Vec<u8>, CobsError>(CobsError::ZeroLength)) <==> ip@.len() == 0,
            (r == Err::<Vec<u8>, CobsError>(CobsError::Overlong)) <==> ip@.len() > MAX_PACKET_LEN,
            r is Ok <==> 1 <= ip@.len() <= MAX_PACKET_LEN,
            r matches Ok(v) ==> v@ == cobs_encoding(ip@, self.spec_sentinel()),
    {
        let mut e: Vec<u8> = Vec::new();
        match self.cobs_encode(ip, &mut e) {
            Ok(()) => {
                assert(e@ =~= cobs_encoding(ip@, self.spec_sentinel()));
                Ok(e)
            },
            Err(r) => Err(r),
        }
    }

    /// Append the encoding of `ip`, with the sentinel of this instance, to `e`.
    pub fn cobs_encode(self, ip: &Vec<u8>, e: &mut Vec<u8>) -> (r: Result<(), CobsError>)
        requires
            old(e)@.len() + MAX_ENC_PACKET_LEN <= usize::MAX,
        ensures
            (r == Err::<(), CobsError>(CobsError::ZeroLength)) <==> ip@.len() == 0,
            (r == Err::<(), CobsError>(CobsError::Overlong)) <==> ip@.len() > MAX_PACKET_LEN,
            r is Ok <==> 1 <= ip@.len() <= MAX_PACKET_LEN,
            r is Ok ==> final(e)@ == old(e)@ + cobs_encoding(ip@, self.spec_sentinel()),
            r is Err ==> final(e)@ == old(e)@,
    {
        if ip.len() == 0 {
            return Err(CobsError::ZeroLength);
        }
        if ip.len() > MAX_PACKET_LEN {
            return Err(CobsError::Overlong);
        }
        let s = self.sentinel;
        let n = ip.len();
        let ghost pre = e@;
        let ghost p = ip@;
        let mut d: usize = e.len();
        e.push(s);
        let mut i: usize = 0;
        let ghost mut r: int = 0;
        let ghost mut m: int = 0;
        let ghost mut closed: Seq<u8> = pre;
        assert(p.subrange(0, n as int) =~= p);
        while i < n
            invariant
                n == p.len(),
                p == ip@,
                1 <= n <= MAX_PACKET_LEN,
                pre.len() + MAX_ENC_PACKET_LEN <= usize::MAX,
                0 <= r <= i <= n,
                i - r <= 254,
                pre.len() <= d < e@.len(),
                e@.len() == d + 1 + (i - r),
                0 <= m,
                m * 254 <= r,
                e@.len() == pre.len() + 1 + i + m,
                e@.subrange(0, d as int) == closed,
                e@.subrange(d + 1, e@.len() as int) == p.subrange(r, i as int),
                forall|j: int| r <= j < i ==> p[j] != s,
                closed + cobs_runs(p.subrange(r, n as int), s) == pre + cobs_runs(p, s),
            decreases n - i,
        {
            if e.len() - d == 0xff {
                proof {
                    let q = p.subrange(r, n as int);
                    lemma_run_len(q, s, 254);
                    assert(q.subrange(0, 254) =~= p.subrange(r, i as int));
                    assert(q.subrange(254, q.len() as int) =~= p.subrange(i as int, n as int));
                    assert(cobs_runs(q, s) == seq![255u8] + q.subrange(0, 254) + cobs_runs(
                        q.subrange(254, q.len() as int),
                        s,
                    ));
                }
                e.set(d, (e.len() - d) as u8);
                proof {
                    let q = p.subrange(r, n as int);
                    let nc = closed + seq![255u8] + p.subrange(r, i as int);
                    assert(e@ =~= nc);
                    assert(nc + cobs_runs(p.subrange(i as int, n as int), s) =~= closed
                        + cobs_runs(q, s));
                    closed = nc;
                    r = i as int;
                    m = m + 1;
                }
                d = e.len();
                e.push(s);
                proof {
                    assert(e@.subrange(0, d as int) =~= closed);
                    assert(e@.subrange(d + 1, e@.len() as int) =~= p.subrange(r, i as int));
                }
            }
            let b = ip[i];
            if b == s {
                proof {
                    let q = p.subrange(r, n as int);
                    lemma_run_len(q, s, (i - r) as nat);
                    assert(q.subrange(0, i - r) =~= p.subrange(r, i as int));
                    assert(q.subrange(i - r + 1, q.len() as int) =~= p.subrange(i + 1, n as int));
                }
                e.set(d, (e.len() - d) as u8);
                proof {
                    let q = p.subrange(r, n as int);
                    let nc = closed + seq![(i - r + 1) as u8] + p.subrange(r, i as int);
                    assert(e@ =~= nc);
                    assert(nc + cobs_runs(p.subrange(i + 1, n as int), s) =~= closed
                        + cobs_runs(q, s));
                    closed = nc;
                    r = i + 1;
                }
                d = e.len();
            }
            e.push(b);
            proof {
                assert(e@.subrange(0, d as int) =~= closed);
                assert(e@.subrange(d + 1, e@.len() as int) =~= p.subrange(r, i + 1));
            }
            i = i + 1;
        }
        proof {
            let q = p.subrange(r, n as int);
            lemma_run_len(q, s, (n - r) as nat);
            assert(q =~= p.subrange(r, n as int));
        }
        e.set(d, (e.len() - d) as u8);
        proof {
            assert(e@ =~= closed + cobs_runs(p.subrange(r, n as int), s));
        }
        e.push(s);
        Ok(())
    }
}

} // verus!
