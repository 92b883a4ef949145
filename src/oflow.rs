//! OrbFlow protocol encode and decode.
//!
//! An OrbFlow packet is a single stream number byte, followed by one or more
//! bytes of stream specific data, terminated by a two's complement checksum byte
//! that makes the whole packet sum to zero (modulo 256). The encoder and decoder
//! work on complete packets only; the decoder keeps statistics.
use vstd::prelude::*;

verus! {

/// Maximum length of the data carried by one packet.
pub const MAX_PACKET_LEN: usize = 8192;

/// Length of the stream number at the head of a packet.
pub const STREAM_LEN: usize = 1;

/// Length of the checksum at the tail of a packet.
pub const CHECKSUM_LEN: usize = 1;

/// Bytes that a packet carries besides its data.
pub const OVERHEAD_LEN: usize = 2;

/// Maximum length of an encoded packet.
pub const MAX_ENC_PACKET_LEN: usize = 8194;

/// Errors from encoding or decoding a packet.
#[derive(Debug, Clone, Copy, PartialEq, Eq, Structural)]
pub enum OFlowError {
    /// Packet is zero length
    ZeroLength,
    /// Packet is too long
    Overlong,
    /// Insufficent data in buffer to complete the packet
    ShortData,
    /// Duff checksum
    BadChecksum,
    /// Function not implemented
    Unimplemented,
}

impl OFlowError {
    /// Human readable description of the error.
    pub fn description(&self) -> (r: &'static str) {
        match self {
            OFlowError::ZeroLength => "Zero length message",
            OFlowError::Overlong => "Packet is too long",
            OFlowError::ShortData => "Packet is too short",
            OFlowError::BadChecksum => "Bad checksum",
            OFlowError::Unimplemented => "Unimplemented",
        }
    }
}

/// Sum of a sequence of bytes, as a natural number.
pub open spec fn byte_sum(s: Seq<u8>) -> nat
    decreases s.len(),
{
    if s.len() == 0 {
        0
    } else {
        (byte_sum(s.drop_last()) + s.last()) as nat
    }
}

/// The checksum byte that makes `stream`, `payload` and itself sum to zero modulo 256.
pub open spec fn checksum_of(stream: u8, payload: Seq<u8>) -> u8 {
    ((256 - (stream + byte_sum(payload)) % 256) % 256) as u8
}

/// The wire form of a packet: stream number, payload, checksum.
pub open spec fn encoding_of(stream: u8, payload: Seq<u8>) -> Seq<u8> {
    seq![stream] + payload + seq![checksum_of(stream, payload)]
}

/// A received packet is accepted when it is long enough to carry a stream number, at
/// least one byte of data and a checksum, is no longer than the largest packet, and
/// sums to zero modulo 256.
pub open spec fn is_valid_packet(p: Seq<u8>) -> bool {
    &&& p.len() >= 3
    &&& p.len() <= MAX_ENC_PACKET_LEN
    &&& byte_sum(p) % 256 == 0
}

/// The error that `decode` gives for packet `p`, if any.
pub open spec fn decode_error(p: Seq<u8>) -> Option<OFlowError> {
    if p.len() < 3 {
        Some(OFlowError::ShortData)
    } else if p.len() > MAX_ENC_PACKET_LEN {
        Some(OFlowError::Overlong)
    } else if byte_sum(p) % 256 != 0 {
        Some(OFlowError::BadChecksum)
    } else {
        None
    }
}

/// The data carried by a packet: everything but its first and its last byte.
pub open spec fn payload_of(p: Seq<u8>) -> Seq<u8> {
    p.subrange(1, p.len() - 1)
}

/// An OrbFlow frame: the stream number and the whole packet it arrived in,
/// checksum included.
#[derive(Debug, Clone, PartialEq, Eq)]
pub struct OFlowFrame {
    stream_number: u8,
    inner: Vec<u8>,
}

impl OFlowFrame {
    /// The frame is a valid packet whose first byte is its stream number.
    pub closed spec fn wf(&self) -> bool {
        &&& is_valid_packet(self.inner@)
        &&& self.stream_number == self.inner@[0]
    }

    /// The whole packet, stream number and checksum included.
    pub closed spec fn packet(&self) -> Seq<u8> {
        self.inner@
    }

    /// The stream number of the frame.
    pub closed spec fn stream(&self) -> u8 {
        self.stream_number
    }

    /// Data carried by the frame, without stream number and checksum.
    pub fn content(&self) -> (r: &[u8])
        requires
            self.wf(),
        ensures
            r@ == payload_of(self.packet()),
    {
        let n = self.inner.len();
        &self.inner.as_slice()[STREAM_LEN..n - CHECKSUM_LEN]
    }

    /// The complete frame, with stream number and checksum.
    pub fn oflow_frame(&self) -> (r: &[u8])
        ensures
            r@ == self.packet(),
    {
        self.inner.as_slice()
    }

    /// The stream number the frame was sent on.
    pub fn get_stream_no(&self) -> (r: u8)
        ensures
            r == self.stream(),
    {
        self.stream_number
    }

    /// Number of data bytes in the frame.
    pub fn len(&self) -> (r: usize)
        requires
            self.wf(),
        ensures
            r == payload_of(self.packet()).len(),
    {
        self.inner.len() - OVERHEAD_LEN
    }

    /// Data byte `i` of the frame.
    pub fn index(&self, i: usize) -> (r: u8)
        requires
            self.wf(),
            i < payload_of(self.packet()).len(),
        ensures
            r == payload_of(self.packet())[i as int],
    {
        self.inner[i + STREAM_LEN]
    }
}

/// The OrbFlow encoder and decoder, with statistics of the packets decoded.
#[derive(Debug, Clone, Copy, PartialEq, Eq)]
pub struct OFlow {
    inbytestotal: u64,
    inpackets: u64,
    inerrpackets: u64,
}

impl OFlow {
    /// Data bytes of the packets accepted so far.
    pub closed spec fn spec_inbytestotal(&self) -> u64 {
        self.inbytestotal
    }

    /// Number of packets accepted so far.
    pub closed spec fn spec_inpackets(&self) -> u64 {
        self.inpackets
    }

    /// Number of packets refused so far.
    pub closed spec fn spec_inerrpackets(&self) -> u64 {
        self.inerrpackets
    }

    /// The statistics after `decode` of packet `ip`.
    pub closed spec fn after_decode(&self, ip: Seq<u8>) -> OFlow {
        if is_valid_packet(ip) {
            OFlow {
                inpackets: self.inpackets.saturating_add(1),
                inbytestotal: self.inbytestotal.saturating_add((ip.len() - OVERHEAD_LEN) as u64),
                ..*self
            }
        } else {
            OFlow { inerrpackets: self.inerrpackets.saturating_add(1), ..*self }
        }
    }

    /// A new instance.
    pub closed spec fn spec_new() -> OFlow {
        OFlow { inbytestotal: 0, inpackets: 0, inerrpackets: 0 }
    }

    /// New instance, with zeroed statistics.
    pub fn new() -> (r: OFlow)
        ensures
            r == OFlow::spec_new(),
            r.spec_inbytestotal() == 0,
            r.spec_inpackets() == 0,
            r.spec_inerrpackets() == 0,
    {
        OFlow { inbytestotal: 0, inpackets: 0, inerrpackets: 0 }
    }

    /// Statistics: (data bytes accepted, packets refused, packets accepted).
    pub fn stats(self) -> (r: (u64, u64, u64))
        ensures
            r == (self.spec_inbytestotal(), self.spec_inerrpackets(), self.spec_inpackets()),
    {
        (self.inbytestotal, self.inerrpackets, self.inpackets)
    }

    /// Decode one packet into a frame, taking ownership of its bytes.
    ///
    /// Statistics saturate at their largest value.
    pub fn decode(&mut self, ip: Vec<u8>) -> (r: Result<OFlowFrame, OFlowError>)
        ensures
            (r == Err::<OFlowFrame, OFlowError>(OFlowError::ShortData)) <==> ip@.len() < 3,
            (r == Err::<OFlowFrame, OFlowError>(OFlowError::Overlong)) <==> ip@.len()
                > MAX_ENC_PACKET_LEN,
            (r == Err::<OFlowFrame, OFlowError>(OFlowError::BadChecksum)) <==> (3 <= ip@.len()
                <= MAX_ENC_PACKET_LEN && byte_sum(ip@) % 256 != 0),
            r is Ok <==> is_valid_packet(ip@),
            r matches Err(e) ==> decode_error(ip@) == Some(e),
            r matches Ok(f) ==> f.wf() && f.packet() == ip@ && f.stream() == ip@[0],
            *final(self) == old(self).after_decode(ip@),
            r is Ok ==> final(self).spec_inpackets() == old(self).spec_inpackets().saturating_add(
                1,
            ) && final(self).spec_inbytestotal() == old(self).spec_inbytestotal().saturating_add(
                (ip@.len() - OVERHEAD_LEN) as u64,
            ) && final(self).spec_inerrpackets() == old(self).spec_inerrpackets(),
            r is Err ==> final(self).spec_inerrpackets() == old(
                self,
            ).spec_inerrpackets().saturating_add(1) && final(self).spec_inpackets() == old(
                self,
            ).spec_inpackets() && final(self).spec_inbytestotal() == old(self).spec_inbytestotal(),
    {
        let n = ip.len();
        if n < 1 + OVERHEAD_LEN {
            self.inerrpackets = self.inerrpackets.saturating_add(1);
            Err(OFlowError::ShortData)
        } else if n > MAX_ENC_PACKET_LEN {
            self.inerrpackets = self.inerrpackets.saturating_add(1);
            Err(OFlowError::Overlong)
        } else {
            let mut sum: usize = 0;
            let mut i: usize = 0;
            while i < n
                invariant
                    n == ip@.len(),
                    n <= MAX_ENC_PACKET_LEN,
                    i <= n,
                    sum == byte_sum(ip@.subrange(0, i as int)),
                    sum <= 255 * i,
                decreases n - i,
            {
                assert(ip@.subrange(0, i + 1).drop_last() == ip@.subrange(0, i as int));
                sum = sum + ip[i] as usize;
                i = i + 1;
            }
            assert(ip@.subrange(0, n as int) == ip@);
            if sum % 256 != 0 {
                self.inerrpackets = self.inerrpackets.saturating_add(1);
                Err(OFlowError::BadChecksum)
            } else {
                self.inpackets = self.inpackets.saturating_add(1);
                self.inbytestotal = self.inbytestotal.saturating_add((n - OVERHEAD_LEN) as u64);
                let stream_number = ip[0];
                Ok(OFlowFrame { stream_number, inner: ip })
            }
        }
    }

    /// The checksum byte for a packet carrying `ip` on stream `stream_number`.
    pub fn get_checksum(stream_number: u8, ip: &[u8]) -> (r: u8)
        ensures
            r == checksum_of(stream_number, ip@),
    {
        let mut acc: u8 = 0;
        let mut i: usize = 0;
        while i < ip.len()
            invariant
                i <= ip@.len(),
                acc as nat == byte_sum(ip@.subrange(0, i as int)) % 256,
            decreases ip@.len() - i,
        {
            assert(ip@.subrange(0, i + 1).drop_last() == ip@.subrange(0, i as int));
            let b = ip[i];
            proof {
                lemma_mod_add_byte(byte_sum(ip@.subrange(0, i as int)), b as nat);
            }
            acc = acc.wrapping_add(b);
            i = i + 1;
        }
        assert(ip@.subrange(0, ip@.len() as int) == ip@);
        proof {
            lemma_mod_add_byte(stream_number as nat, byte_sum(ip@));
        }
        let t = acc.wrapping_add(stream_number);
        0u8.wrapping_sub(t)
    }

    /// Build the wire form of a packet carrying `ip` on stream `stream_number`.
    pub fn encode_to_vec(&mut self, stream_number: u8, ip: Vec<u8>) -> (r: Result<
        Vec<u8>,
        OFlowError,
    >)
        ensures
            (r == Err::<Vec<u8>, OFlowError>(OFlowError::ZeroLength)) <==> ip@.len() == 0,
            (r == Err::<Vec<u8>, OFlowError>(OFlowError::Overlong)) <==> ip@.len()
                > MAX_PACKET_LEN,
            r matches Ok(v) ==> v@ == encoding_of(stream_number, ip@),
            r is Ok <==> 1 <= ip@.len() <= MAX_PACKET_LEN,
            *final(self) == *old(self),
    {
        if ip.len() == 0 {
            Err(OFlowError::ZeroLength)
        } else if ip.len() > MAX_PACKET_LEN {
            Err(OFlowError::Overlong)
        } else {
            let sum = OFlow::get_checksum(stream_number, ip.as_slice());
            let mut constructed_frame: Vec<u8> = Vec::new();
            constructed_frame.push(stream_number);
            let mut j: usize = 0;
            while j < ip.len()
                invariant
                    j <= ip@.len(),
                    ip@.len() <= MAX_PACKET_LEN,
                    constructed_frame@ == seq![stream_number] + ip@.subrange(0, j as int),
                decreases ip@.len() - j,
            {
                constructed_frame.push(ip[j]);
                j = j + 1;
            }
            constructed_frame.push(sum);
            assert(ip@.subrange(0, ip@.len() as int) == ip@);
            Ok(constructed_frame)
        }
    }
}

/// The three parts of a packet (stream number, payload, checksum) for transmission
/// as they are, or for flattening into one packet.
pub fn oflow_frame(stream_number: u8, m: &Vec<u8>) -> (r: Vec<Vec<u8>>)
    requires
        1 <= m@.len() <= MAX_PACKET_LEN,
    ensures
        r@.len() == 3,
        r@[0]@ == seq![stream_number],
        r@[1]@ == m@,
        r@[2]@ == seq![checksum_of(stream_number, m@)],
{
    let sum = OFlow::get_checksum(stream_number, m.as_slice());
    let mut head: Vec<u8> = Vec::new();
    head.push(stream_number);
    let mut tail: Vec<u8> = Vec::new();
    tail.push(sum);
    let body = m.clone();
    assert(body@ =~= m@);
    let mut r: Vec<Vec<u8>> = Vec::new();
    r.push(head);
    r.push(body);
    r.push(tail);
    r
}

proof fn lemma_byte_sum_concat(a: Seq<u8>, b: Seq<u8>)
    ensures
        byte_sum(a + b) == byte_sum(a) + byte_sum(b),
    decreases b.len(),
{
    if b.len() == 0 {
        assert(a + b =~= a);
    } else {
        assert((a + b).drop_last() =~= a + b.drop_last());
        lemma_byte_sum_concat(a, b.drop_last());
    }
}

proof fn lemma_checksum_cancels(x: nat)
    ensures
        (x + (256 - x % 256) % 256) % 256 == 0,
{
    let r = x % 256;
    vstd::arithmetic::div_mod::lemma_fundamental_div_mod(x as int, 256);
    if r == 0 {
        assert((256 - r) % 256 == 0);
    } else {
        assert((256 - r) % 256 == 256 - r);
        vstd::arithmetic::div_mod::lemma_mod_multiples_basic((x / 256 + 1) as int, 256);
        assert(x + (256 - r) == (x / 256 + 1) * 256) by (nonlinear_arith)
            requires
                x == 256 * (x / 256) + r,
        ;
    }
}

/// Round trip: the packet that `encode_to_vec` builds for a payload of allowed
/// length is accepted by `decode`, which gives back the stream number and the
/// payload unchanged.
pub proof fn lemma_encode_decode_round_trip(stream: u8, payload: Seq<u8>)
    requires
        1 <= payload.len() <= MAX_PACKET_LEN,
    ensures
        is_valid_packet(encoding_of(stream, payload)),
        encoding_of(stream, payload)[0] == stream,
        payload_of(encoding_of(stream, payload)) == payload,
{
    let c = checksum_of(stream, payload);
    let e = encoding_of(stream, payload);
    let head = seq![stream];
    assert(head.drop_last() =~= Seq::<u8>::empty());
    assert(byte_sum(head.drop_last()) == 0);
    assert(byte_sum(head) == stream);
    assert(seq![c].drop_last() =~= Seq::<u8>::empty());
    assert(byte_sum(seq![c].drop_last()) == 0);
    assert(byte_sum(seq![c]) == c);
    lemma_byte_sum_concat(head, payload);
    lemma_byte_sum_concat(head + payload, seq![c]);
    lemma_checksum_cancels((stream + byte_sum(payload)) as nat);
    assert(payload_of(e) =~= payload);
}

proof fn lemma_mod_add_byte(a: nat, b: nat)
    ensures
        ((a % 256) + b) % 256 == (a + b) % 256,
        ((a % 256) as u8 as nat + b) % 256 == (a + b) % 256,
{
    vstd::arithmetic::div_mod::lemma_add_mod_noop(a as int, b as int, 256);
    vstd::arithmetic::div_mod::lemma_mod_twice(b as int, 256);
}

} // verus!
