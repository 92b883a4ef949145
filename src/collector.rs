//! Collection of trace data from a transport.
//!
//! The collector hides the transport: raw ITM bytes are fed straight into the ITM
//! decoder, while OrbFlow input goes through the COBS framer and the OrbFlow
//! decoder first, keeping only the frames of the expected stream. Each decoded ITM
//! message is handed to a [`FrameHandler`]. The transport itself (opening it,
//! reading from it) belongs to the caller, which hands each read to
//! [`Collect::collect_data`].
use crate::cobs::{feed_until, Cobs};
use crate::itm::{decode_until, ITMDecoder, ITMError, ITMFrame};
use crate::oflow::{decode_error, payload_of, OFlow, OFlowError};
use crate::cobs::CobsError;
use vstd::prelude::*;
use vstd::string::*;
use vstd::utf8::encode_utf8;

verus! {

/// Prefix for an address offering OrbFlow.
pub const OFLOW_PREFIX: &'static str = "oflow";

/// Prefix for an address offering raw ITM.
pub const ITM_PREFIX: &'static str = "itm";

/// Prefix for the address of a file.
pub const FILE_PREFIX: &'static str = "file";

/// Separator between the prefix and the rest of an address.
pub const URL_SEPARATOR: &'static str = "://";

/// Default connection address, for when none is given.
pub const DEFAULT_CONNECT_ADDR: &'static str = "localhost";

/// Default port, for when none is given.
pub const DEFAULT_PORT: &'static str = "3402";

/// Separator between a host and its port.
pub const PORT_SEP: &'static str = ":";

/// What a user of the collector implements to receive its output.
pub trait FrameHandler {
    /// A message to be processed. Return true if everything is OK, false to stop.
    fn process(&mut self, i: ITMFrame) -> bool;

    /// Indication of the current state of the link and of decode errors.
    fn state_ind(&self, e: &CollectError);
}

/// Errors and states of the collector.
#[derive(Debug, Clone, PartialEq, Eq)]
pub enum CollectError {
    /// No error
    NoError,
    /// Connection was lost
    Reset,
    /// The handler asked to stop
    ProcessingFailed,
    /// Source of data not found
    NoSource,
    /// Error from the transport, with its description
    IoError(String),
    /// Error from the OrbFlow layer
    OFlowError(OFlowError),
    /// Error from the COBS layer
    CobsError(CobsError),
    /// Error from the ITM decoder
    ITMError(ITMError),
}

/// Kinds of data source, by the prefix of their address.
#[derive(Debug, Clone, Copy, PartialEq, Eq, Structural)]
pub enum SourceKind {
    /// OrbFlow over a network connection (`oflow://`)
    OFlow,
    /// Raw ITM over a network connection (`itm://`)
    Itm,
    /// OrbFlow from a file (`file://`)
    File,
}

/// What one read from the transport gave.
#[derive(Debug, Clone, PartialEq, Eq)]
pub enum ReadOutcome {
    /// These bytes; none at all means the end of the stream
    Data(Vec<u8>),
    /// Nothing this time (interrupted, or would block); read again
    Interrupted,
    /// The transport failed, for this reason
    Failed(String),
}

/// One item of decoder output.
#[derive(Debug, Clone, Copy, PartialEq, Eq, Structural)]
pub enum Decoded {
    /// A decoded ITM message
    Frame(ITMFrame),
    /// An OrbFlow packet that was refused, and why
    Fault(OFlowError),
}

/// The collector: decoders for each layer, and the packet being assembled.
pub struct Collect {
    stream_number: u8,
    cobs_decoder: Cobs,
    oflow_decoder: OFlow,
    itm_decoder: ITMDecoder,
    is_itm: bool,
    source: SourceKind,
    address: Vec<u8>,
    ppacket: Vec<u8>,
}

/// The URL to connect to. A file, if given, wins. Otherwise the protocol is the one
/// given, or `itm` when a server is given and `oflow` when not; the server is the one
/// given or `localhost`, and gets port 3402 when it names none.
pub open spec fn url_of(
    input_file: Option<Seq<char>>,
    server: Option<Seq<char>>,
    protocol: Option<Seq<char>>,
) -> Seq<char> {
    match input_file {
        Some(f) => FILE_PREFIX@ + URL_SEPARATOR@ + f,
        None => {
            let prot = match protocol {
                Some(p) => p,
                None => if server is Some {
                    ITM_PREFIX@
                } else {
                    OFLOW_PREFIX@
                },
            };
            let addr = match server {
                Some(s) => s,
                None => DEFAULT_CONNECT_ADDR@,
            };
            let port = if encode_utf8(addr).contains(58u8) {
                Seq::empty()
            } else {
                PORT_SEP@ + DEFAULT_PORT@
            };
            prot + URL_SEPARATOR@ + addr + port
        },
    }
}

/// The bytes of the address prefix of a kind of source.
pub open spec fn scheme_bytes(k: SourceKind) -> Seq<u8> {
    match k {
        SourceKind::OFlow => seq![111u8, 102, 108, 111, 119, 58, 47, 47],
        SourceKind::Itm => seq![105u8, 116, 109, 58, 47, 47],
        SourceKind::File => seq![102u8, 105, 108, 101, 58, 47, 47],
    }
}

/// `b` starts with `p`.
pub open spec fn starts_with(b: Seq<u8>, p: Seq<u8>) -> bool {
    b.len() >= p.len() && b.subrange(0, p.len() as int) == p
}

/// The kind of source that an address (as UTF-8 bytes) names, by its prefix.
pub open spec fn source_of(b: Seq<u8>) -> Option<SourceKind> {
    if starts_with(b, scheme_bytes(SourceKind::OFlow)) {
        Some(SourceKind::OFlow)
    } else if starts_with(b, scheme_bytes(SourceKind::Itm)) {
        Some(SourceKind::Itm)
    } else if starts_with(b, scheme_bytes(SourceKind::File)) {
        Some(SourceKind::File)
    } else {
        None
    }
}

/// All the messages in raw ITM bytes: the decoder after the bytes, and the messages
/// in order.
pub closed spec fn itm_run(d: ITMDecoder, bytes: Seq<u8>) -> (ITMDecoder, Seq<ITMFrame>)
    decreases bytes.len(),
{
    let r = decode_until(d, bytes);
    match r.2 {
        Some(f) => if 1 <= r.1 <= bytes.len() {
            let rest = itm_run(r.0, bytes.subrange(r.1 as int, bytes.len() as int));
            (rest.0, seq![f] + rest.1)
        } else {
            (r.0, Seq::empty())
        },
        None => (r.0, Seq::empty()),
    }
}

/// Messages as decoder output.
pub open spec fn frame_items(fs: Seq<ITMFrame>) -> Seq<Decoded> {
    fs.map_values(|f: ITMFrame| Decoded::Frame(f))
}

/// All the output of OrbFlow bytes: COBS packets are completed from the packet `op`
/// in progress on; each is decoded as OrbFlow, a refused one gives a fault and one of
/// the stream `tag` has its data decoded as ITM. Gives the decoders and the packet in
/// progress after the bytes, and the output in order.
pub closed spec fn oflow_run(
    c: Cobs,
    op: Seq<u8>,
    of: OFlow,
    d: ITMDecoder,
    tag: u8,
    bytes: Seq<u8>,
) -> (Cobs, Seq<u8>, OFlow, ITMDecoder, Seq<Decoded>)
    decreases bytes.len(),
{
    let r = feed_until(c, op, bytes);
    if r.3 && 1 <= r.2 <= bytes.len() {
        let packet = r.1;
        let of1 = of.after_decode(packet);
        let (d1, items) = match decode_error(packet) {
            Some(e) => (d, seq![Decoded::Fault(e)]),
            None => if packet[0] == tag {
                let (d2, fs) = itm_run(d, payload_of(packet));
                (d2, frame_items(fs))
            } else {
                (d, Seq::empty())
            },
        };
        let rest = oflow_run(
            r.0,
            Seq::empty(),
            of1,
            d1,
            tag,
            bytes.subrange(r.2 as int, bytes.len() as int),
        );
        (rest.0, rest.1, rest.2, rest.3, items + rest.4)
    } else {
        (r.0, r.1, of, d, Seq::empty())
    }
}

/// `b` starts with `p`.
fn has_prefix(b: &[u8], p: &Vec<u8>) -> (r: bool)
    ensures
        r == starts_with(b@, p@),
{
    if b.len() < p.len() {
        return false;
    }
    let mut i: usize = 0;
    while i < p.len()
        invariant
            b@.len() >= p@.len(),
            i <= p@.len(),
            b@.subrange(0, i as int) == p@.subrange(0, i as int),
        decreases p@.len() - i,
    {
        if b[i] != p[i] {
            assert(b@.subrange(0, p@.len() as int)[i as int] != p@[i as int]);
            return false;
        }
        assert(b@.subrange(0, i + 1) =~= b@.subrange(0, i as int).push(b@[i as int]));
        assert(p@.subrange(0, i + 1) =~= p@.subrange(0, i as int).push(p@[i as int]));
        i = i + 1;
    }
    assert(p@.subrange(0, p@.len() as int) =~= p@);
    true
}

/// The bytes of `b` from `k` on, in a vector.
fn tail_from(b: &[u8], k: usize) -> (r: Vec<u8>)
    requires
        k <= b@.len(),
    ensures
        r@ == b@.subrange(k as int, b@.len() as int),
{
    let mut r: Vec<u8> = Vec::new();
    let mut i: usize = k;
    while i < b.len()
        invariant
            k <= i <= b@.len(),
            r@ == b@.subrange(k as int, i as int),
        decreases b@.len() - i,
    {
        r.push(b[i]);
        assert(r@ =~= b@.subrange(k as int, i + 1));
        i = i + 1;
    }
    r
}

/// The bytes of `b` hold a colon.
fn has_colon(b: &[u8]) -> (r: bool)
    ensures
        r == b@.contains(58u8),
{
    let mut i: usize = 0;
    while i < b.len()
        invariant
            i <= b@.len(),
            forall|j: int| 0 <= j < i ==> b@[j] != 58u8,
        decreases b@.len() - i,
    {
        if b[i] == 58u8 {
            return true;
        }
        i = i + 1;
    }
    false
}

/// Append the messages `fs` to `items`, as decoder output.
fn push_frames(items: &mut Vec<Decoded>, fs: &Vec<ITMFrame>)
    ensures
        final(items)@ == old(items)@ + frame_items(fs@),
{
    let ghost base = items@;
    let mut j: usize = 0;
    while j < fs.len()
        invariant
            j <= fs@.len(),
            base == old(items)@,
            items@ == base + frame_items(fs@.subrange(0, j as int)),
        decreases fs@.len() - j,
    {
        let ghost before = items@;
        items.push(Decoded::Frame(fs[j]));
        assert(frame_items(fs@.subrange(0, j + 1)) =~= frame_items(fs@.subrange(0, j as int)).push(
            Decoded::Frame(fs@[j as int]),
        ));
        assert(items@ =~= base + frame_items(fs@.subrange(0, j + 1)));
        j = j + 1;
    }
    assert(fs@.subrange(0, fs@.len() as int) =~= fs@);
}

/// Hand each item to the handler in order: messages to `process`, faults to
/// `state_ind`. Stops with `ProcessingFailed` at the first message refused.
fn dispatch<H: FrameHandler>(items: &Vec<Decoded>, cb: &mut H) -> (r: Result<(), CollectError>)
    ensures
        r is Err ==> r == Err::<(), CollectError>(CollectError::ProcessingFailed),
{
    let mut i: usize = 0;
    while i < items.len()
        invariant
            i <= items@.len(),
        decreases items@.len() - i,
    {
        match items[i] {
            Decoded::Frame(f) => {
                if !cb.process(f) {
                    cb.state_ind(&CollectError::ProcessingFailed);
                    return Err(CollectError::ProcessingFailed);
                }
            },
            Decoded::Fault(e) => {
                cb.state_ind(&CollectError::OFlowError(e));
            },
        }
        i = i + 1;
    }
    Ok(())
}

impl Collect {
    /// The decoders are well formed and the packet in progress is within bounds.
    pub closed spec fn wf(&self) -> bool {
        self.itm_decoder.wf()
    }

    /// The COBS decoder.
    pub closed spec fn spec_cobs(&self) -> Cobs {
        self.cobs_decoder
    }

    /// The COBS packet in progress.
    pub closed spec fn spec_packet(&self) -> Seq<u8> {
        self.ppacket@
    }

    /// The OrbFlow decoder.
    pub closed spec fn spec_oflow(&self) -> OFlow {
        self.oflow_decoder
    }

    /// The ITM decoder.
    pub closed spec fn spec_itm(&self) -> ITMDecoder {
        self.itm_decoder
    }

    /// The OrbFlow stream whose frames are decoded.
    pub closed spec fn spec_tag(&self) -> u8 {
        self.stream_number
    }

    /// The input is raw ITM rather than OrbFlow.
    pub closed spec fn spec_is_itm(&self) -> bool {
        self.is_itm
    }

    /// The kind of source.
    pub closed spec fn spec_source(&self) -> SourceKind {
        self.source
    }

    /// The address of the source, without its prefix, as UTF-8 bytes.
    pub closed spec fn spec_address(&self) -> Seq<u8> {
        self.address@
    }

    /// The URL to connect to, from the file, server and protocol given.
    pub fn calculate_url(
        input_file: &Option<String>,
        server: &Option<String>,
        protocol: &Option<String>,
    ) -> (r: String)
        ensures
            r@ == url_of(
                match input_file {
                    Some(f) => Some(f@),
                    None => None,
                },
                match server {
                    Some(s) => Some(s@),
                    None => None,
                },
                match protocol {
                    Some(p) => Some(p@),
                    None => None,
                },
            ),
    {
        match input_file {
            Some(x) => {
                let mut r = String::from_str(FILE_PREFIX);
                r.append(URL_SEPARATOR);
                r.append(x.as_str());
                r
            },
            None => {
                let mut r = match protocol {
                    Some(p) => p.clone(),
                    None => {
                        if server.is_some() {
                            String::from_str(ITM_PREFIX)
                        } else {
                            String::from_str(OFLOW_PREFIX)
                        }
                    },
                };
                r.append(URL_SEPARATOR);
                let addr: &str = match server {
                    Some(s) => s.as_str(),
                    None => DEFAULT_CONNECT_ADDR,
                };
                r.append(addr);
                if !has_colon(addr.as_bytes()) {
                    r.append(PORT_SEP);
                    r.append(DEFAULT_PORT);
                }
                r
            },
        }
    }

    /// New collector for the source at `addr`, which must start with `oflow://`,
    /// `itm://` or `file://`. Frames of OrbFlow stream `tag` are decoded; the ITM
    /// decoder waits for a sync when `itm_sync` is set.
    pub fn new_collector(addr: &str, itm_sync: bool, tag: u8) -> (r: Result<Collect, CollectError>)
        ensures
            r is Err <==> source_of(encode_utf8(addr@)) is None,
            r is Err ==> r == Err::<Collect, CollectError>(CollectError::NoSource),
            r matches Ok(c) ==> {
                let k = source_of(encode_utf8(addr@))->0;
                &&& c.wf()
                &&& c.spec_source() == k
                &&& c.spec_is_itm() == (k == SourceKind::Itm)
                &&& c.spec_address() == encode_utf8(addr@).subrange(
                    scheme_bytes(k).len() as int,
                    encode_utf8(addr@).len() as int,
                )
                &&& c.spec_tag() == tag
                &&& c.spec_packet() == Seq::<u8>::empty()
                &&& c.spec_cobs() == Cobs::spec_new()
                &&& c.spec_oflow() == OFlow::spec_new()
                &&& c.spec_itm().spec_state() == if itm_sync {
                    crate::itm::ITMState::Unsynced
                } else {
                    crate::itm::ITMState::Idle
                }
                &&& c.spec_itm().spec_stats() == crate::itm::zero_stats()
            },
    {
        let b = addr.as_bytes();
        let oflow_scheme: Vec<u8> = vec![111u8, 102, 108, 111, 119, 58, 47, 47];
        let itm_scheme: Vec<u8> = vec![105u8, 116, 109, 58, 47, 47];
        let file_scheme: Vec<u8> = vec![102u8, 105, 108, 101, 58, 47, 47];
        assert(oflow_scheme@ == scheme_bytes(SourceKind::OFlow));
        assert(itm_scheme@ == scheme_bytes(SourceKind::Itm));
        assert(file_scheme@ == scheme_bytes(SourceKind::File));
        let (source, rest) = if has_prefix(b, &oflow_scheme) {
            (SourceKind::OFlow, tail_from(b, oflow_scheme.len()))
        } else if has_prefix(b, &itm_scheme) {
            (SourceKind::Itm, tail_from(b, itm_scheme.len()))
        } else if has_prefix(b, &file_scheme) {
            (SourceKind::File, tail_from(b, file_scheme.len()))
        } else {
            return Err(CollectError::NoSource);
        };
        Ok(Collect {
            stream_number: tag,
            cobs_decoder: Cobs::new(),
            oflow_decoder: OFlow::new(),
            itm_decoder: ITMDecoder::new_with_sync(itm_sync),
            is_itm: source == SourceKind::Itm,
            source,
            address: rest,
            ppacket: Vec::new(),
        })
    }

    /// The kind of source.
    pub fn source(&self) -> (r: SourceKind)
        ensures
            r == self.spec_source(),
    {
        self.source
    }

    /// The address of the source, without its prefix, as UTF-8 bytes.
    pub fn address(&self) -> (r: &[u8])
        ensures
            r@ == self.spec_address(),
    {
        self.address.as_slice()
    }

    /// The link settings: stream, kind of input, source and address.
    pub closed spec fn same_link(&self, other: &Collect) -> bool {
        &&& self.stream_number == other.stream_number
        &&& self.is_itm == other.is_itm
        &&& self.source == other.source
        &&& self.address == other.address
    }

    /// What decoding `tokens` gives: the COBS decoder, the packet in progress, the
    /// OrbFlow decoder, the ITM decoder, and the output.
    pub closed spec fn buffer_result(&self, tokens: Seq<u8>) -> (
        Cobs,
        Seq<u8>,
        OFlow,
        ITMDecoder,
        Seq<Decoded>,
    ) {
        if self.is_itm {
            let (d, fs) = itm_run(self.itm_decoder, tokens);
            (self.cobs_decoder, self.ppacket@, self.oflow_decoder, d, frame_items(fs))
        } else {
            oflow_run(
                self.cobs_decoder,
                self.ppacket@,
                self.oflow_decoder,
                self.itm_decoder,
                self.stream_number,
                tokens,
            )
        }
    }

    /// All the output of OrbFlow bytes, through the COBS, OrbFlow and ITM decoders.
    fn oflow_items(&mut self, data: &[u8]) -> (r: Vec<Decoded>)
        requires
            old(self).wf(),
        ensures
            final(self).wf(),
            (
                final(self).cobs_decoder,
                final(self).ppacket@,
                final(self).oflow_decoder,
                final(self).itm_decoder,
                r@,
            ) == oflow_run(
                old(self).cobs_decoder,
                old(self).ppacket@,
                old(self).oflow_decoder,
                old(self).itm_decoder,
                old(self).stream_number,
                data@,
            ),
            final(self).same_link(old(self)),
    {
        let ghost tag = self.stream_number;
        let ghost total = oflow_run(
            self.cobs_decoder,
            self.ppacket@,
            self.oflow_decoder,
            self.itm_decoder,
            tag,
            data@,
        );
        let mut items: Vec<Decoded> = Vec::new();
        let mut pos: usize = 0;
        assert(data@.subrange(0, data@.len() as int) =~= data@);
        while pos < data.len()
            invariant
                pos <= data@.len(),
                self.wf(),
                self.same_link(old(self)),
                tag == self.stream_number,
                total == oflow_run(
                    old(self).cobs_decoder,
                    old(self).ppacket@,
                    old(self).oflow_decoder,
                    old(self).itm_decoder,
                    old(self).stream_number,
                    data@,
                ),
                ({
                    let cur = oflow_run(
                        self.cobs_decoder,
                        self.ppacket@,
                        self.oflow_decoder,
                        self.itm_decoder,
                        tag,
                        data@.subrange(pos as int, data@.len() as int),
                    );
                    &&& cur.0 == total.0
                    &&& cur.1 == total.1
                    &&& cur.2 == total.2
                    &&& cur.3 == total.3
                    &&& items@ + cur.4 == total.4
                }),
            decreases data@.len() - pos,
        {
            let ghost rest = data@.subrange(pos as int, data@.len() as int);
            let ghost start = pos;
            let ghost it_b = items@;
            match self.cobs_decoder.get_frame(data, &mut pos, &mut self.ppacket) {
                Ok(()) => {
                    let ghost after = data@.subrange(pos as int, data@.len() as int);
                    assert(after =~= rest.subrange(pos - start, rest.len() as int));
                    let mut packet: Vec<u8> = Vec::new();
                    std::mem::swap(&mut packet, &mut self.ppacket);
                    assert(self.ppacket@ =~= Seq::<u8>::empty());
                    match self.oflow_decoder.decode(packet) {
                        Err(e) => {
                            items.push(Decoded::Fault(e));
                            assert(items@ =~= it_b + seq![Decoded::Fault(e)]);
                        },
                        Ok(frame) => {
                            if frame.get_stream_no() == self.stream_number {
                                let fs = self.itm_frames(frame.content());
                                push_frames(&mut items, &fs);
                            } else {
                                assert(items@ =~= it_b + Seq::<Decoded>::empty());
                            }
                        },
                    }
                },
                Err(_) => {
                    let ghost after = data@.subrange(pos as int, data@.len() as int);
                    assert(after =~= Seq::<u8>::empty());
                    assert(items@ + Seq::<Decoded>::empty() =~= items@);
                },
            }
        }
        assert(data@.subrange(pos as int, data@.len() as int) =~= Seq::<u8>::empty());
        assert(items@ + Seq::<Decoded>::empty() =~= items@);
        items
    }

    /// Decode the bytes of one read: raw ITM, or OrbFlow through the COBS framer. A
    /// COBS packet cut short by the end of the bytes is completed by the next read.
    pub fn decode_buffer(&mut self, tokens: &[u8]) -> (r: Vec<Decoded>)
        requires
            old(self).wf(),
        ensures
            final(self).wf(),
            final(self).same_link(old(self)),
            ({
                let res = old(self).buffer_result(tokens@);
                &&& final(self).spec_cobs() == res.0
                &&& final(self).spec_packet() == res.1
                &&& final(self).spec_oflow() == res.2
                &&& final(self).spec_itm() == res.3
                &&& r@ == res.4
            }),
    {
        if self.is_itm {
            let fs = self.itm_frames(tokens);
            let mut items: Vec<Decoded> = Vec::new();
            push_frames(&mut items, &fs);
            assert(items@ =~= frame_items(fs@));
            items
        } else {
            self.oflow_items(tokens)
        }
    }

    /// Decode raw ITM bytes and hand each message to the handler, stopping with
    /// `ProcessingFailed` when it refuses one. The decoder takes all the bytes.
    pub fn itm_process<H: FrameHandler>(&mut self, data: &[u8], cb: &mut H) -> (r: Result<
        (),
        CollectError,
    >)
        requires
            old(self).wf(),
        ensures
            final(self).wf(),
            final(self).same_link(old(self)),
            final(self).spec_itm() == itm_run(old(self).spec_itm(), data@).0,
            final(self).spec_cobs() == old(self).spec_cobs(),
            final(self).spec_packet() == old(self).spec_packet(),
            final(self).spec_oflow() == old(self).spec_oflow(),
            r is Err ==> r == Err::<(), CollectError>(CollectError::ProcessingFailed),
    {
        let fs = self.itm_frames(data);
        let mut items: Vec<Decoded> = Vec::new();
        push_frames(&mut items, &fs);
        dispatch(&items, cb)
    }

    /// Act on one read from the transport. Bytes are decoded and the output handed to
    /// the handler: each message to `process`, each refused OrbFlow packet to
    /// `state_ind`, then `NoError` to `state_ind`. Returns `None` to read again, or
    /// the reason to stop: `Reset` at the end of the stream, `IoError` when the
    /// transport failed, `ProcessingFailed` when the handler refused a message.
    pub fn collect_data<H: FrameHandler>(&mut self, ev: ReadOutcome, cb: &mut H) -> (r: Option<
        CollectError,
    >)
        requires
            old(self).wf(),
        ensures
            final(self).wf(),
            final(self).same_link(old(self)),
            ev is Interrupted ==> r is None && *final(self) == *old(self),
            ev matches ReadOutcome::Failed(m) ==> r == Some(CollectError::IoError(m))
                && *final(self) == *old(self),
            ev matches ReadOutcome::Data(v) ==> {
                if v@.len() == 0 {
                    r == Some(CollectError::Reset) && *final(self) == *old(self)
                } else {
                    let res = old(self).buffer_result(v@);
                    &&& final(self).spec_cobs() == res.0
                    &&& final(self).spec_packet() == res.1
                    &&& final(self).spec_oflow() == res.2
                    &&& final(self).spec_itm() == res.3
                    &&& (r is None || r == Some(CollectError::ProcessingFailed))
                }
            },
    {
        match ev {
            ReadOutcome::Interrupted => None,
            ReadOutcome::Failed(m) => {
                let e = CollectError::IoError(m);
                cb.state_ind(&e);
                Some(e)
            },
            ReadOutcome::Data(v) => {
                if v.len() == 0 {
                    cb.state_ind(&CollectError::Reset);
                    return Some(CollectError::Reset);
                }
                let items = self.decode_buffer(v.as_slice());
                match dispatch(&items, cb) {
                    Ok(()) => {
                        cb.state_ind(&CollectError::NoError);
                        None
                    },
                    Err(e) => Some(e),
                }
            },
        }
    }

    /// All the messages in raw ITM bytes, through the ITM decoder.
    fn itm_frames(&mut self, data: &[u8]) -> (r: Vec<ITMFrame>)
        requires
            old(self).wf(),
        ensures
            final(self).wf(),
            (final(self).itm_decoder, r@) == itm_run(old(self).itm_decoder, data@),
            final(self).cobs_decoder == old(self).cobs_decoder,
            final(self).oflow_decoder == old(self).oflow_decoder,
            final(self).ppacket == old(self).ppacket,
            final(self).stream_number == old(self).stream_number,
            final(self).is_itm == old(self).is_itm,
            final(self).source == old(self).source,
            final(self).address == old(self).address,
    {
        let ghost total = itm_run(self.itm_decoder, data@);
        let mut frames: Vec<ITMFrame> = Vec::new();
        let mut pos: usize = 0;
        assert(data@.subrange(0, data@.len() as int) =~= data@);
        while pos < data.len()
            invariant
                pos <= data@.len(),
                self.wf(),
                self.cobs_decoder == old(self).cobs_decoder,
                self.oflow_decoder == old(self).oflow_decoder,
                self.ppacket == old(self).ppacket,
                self.stream_number == old(self).stream_number,
                self.is_itm == old(self).is_itm,
                self.source == old(self).source,
                self.address == old(self).address,
                total == itm_run(old(self).itm_decoder, data@),
                ({
                    let cur = itm_run(self.itm_decoder, data@.subrange(pos as int, data@.len() as int));
                    &&& cur.0 == total.0
                    &&& frames@ + cur.1 == total.1
                }),
            decreases data@.len() - pos,
        {
            let ghost rest = data@.subrange(pos as int, data@.len() as int);
            let ghost start = pos;
            let ghost before = self.itm_decoder;
            let ghost fr = frames@;
            match self.itm_decoder.get_frame(data, &mut pos) {
                Ok(f) => {
                    let ghost after = data@.subrange(pos as int, data@.len() as int);
                    assert(after =~= rest.subrange(pos - start, rest.len() as int));
                    assert(itm_run(before, rest) == (itm_run(self.itm_decoder, after).0, seq![f]
                        + itm_run(self.itm_decoder, after).1));
                    frames.push(f);
                    assert(frames@ =~= fr + seq![f]);
                    assert(fr + (seq![f] + itm_run(self.itm_decoder, after).1) =~= frames@
                        + itm_run(self.itm_decoder, after).1);
                },
                Err(_) => {
                    let ghost after = data@.subrange(pos as int, data@.len() as int);
                    assert(after =~= Seq::<u8>::empty());
                    assert(itm_run(before, rest) == (self.itm_decoder, Seq::<ITMFrame>::empty()));
                    assert(decode_until(self.itm_decoder, after) == (self.itm_decoder, 0nat, None::<ITMFrame>));
                    assert(frames@ + Seq::<ITMFrame>::empty() =~= frames@);
                },
            }
        }
        assert(data@.subrange(pos as int, data@.len() as int) =~= Seq::<u8>::empty());
        assert(decode_until(self.itm_decoder, Seq::<u8>::empty()) == (self.itm_decoder, 0nat, None::<ITMFrame>));
        assert(frames@ + Seq::<ITMFrame>::empty() =~= frames@);
        frames
    }
}

} // verus!
