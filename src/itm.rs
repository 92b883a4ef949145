//! Decoding of the ITM flow from Cortex-M (v8-M) microcontrollers.
//!
//! Follows Appendix F of the Arm v8-M Architecture Reference Manual (DDI0553B).
//! The flow can arrive cleanly from the SWO pin, or after unwrapping from TPIU or
//! OrbFlow frames; this module turns the unwrapped ITM bytes into individual
//! messages for higher layers.
//!
//! The decoder is a state machine. Before a byte reaches the current state it is
//! shifted into a window of the last eight bytes, which is checked for a TPIU sync
//! (an anomaly in an ITM flow, which drops the decoder out of sync) and for an ITM
//! sync (five zero bytes and 0x80, which puts the decoder in sync). Statistics
//! saturate at their largest value.
use vstd::prelude::*;

verus! {

const ITM_SYNCMASK: u64 = 0xFFFFFFFFFFFF;

const ITM_SYNCPATTERN: u64 = 0x000000000080;

const TPIU_SYNCMASK: u64 = 0xFFFFFFFF;

const TPIU_SYNCPATTERN: u64 = 0xFFFFFF7F;

/// Errors from the decoder.
#[derive(Debug, Clone, Copy, PartialEq, Eq, Structural)]
pub enum ITMError {
    /// Not enough data available to complete operation
    ShortData,
    /// Function not implemented
    Unimplemented,
}

impl ITMError {
    /// Human readable description of the error.
    pub fn description(&self) -> (r: &'static str) {
        match self {
            ITMError::ShortData => "Packet is too short",
            ITMError::Unimplemented => "Unimplemented",
        }
    }
}

/// Types of local timestamp.
#[derive(Debug, Clone, Copy, PartialEq, Eq, Structural)]
pub enum TSType {
    /// Timestamp is synchronous to data
    Sync,
    /// Timestamp is delayed with respect to data
    TSDelayed,
    /// Data is delayed with respect to timestamp
    DataDelayed,
    /// Both data and timestamp are delayed
    BothDelayed,
}

/// Types of exception event.
#[derive(Debug, Clone, Copy, PartialEq, Eq, Structural)]
pub enum ExceptionEvent {
    /// Unknown
    Unknown,
    /// Entry into exception
    Entry,
    /// Exit from exception
    Exit,
    /// Return to exception handler
    Returned,
}

/// Messages found in the flow.
#[derive(Debug, Clone, Copy, PartialEq, Eq, Structural)]
pub enum ITMFrame {
    /// No content
    Empty,
    /// A valid (local) timestamp
    Timestamp { ttype: TSType, ts: u64 },
    /// A global timestamp, with indication if it has wrapped
    Globaltimestamp { has_wrapped: bool, ts: u64 },
    /// A general instrumentation packet
    Instrumentation { addr: u8, data: u32, len: u8 },
    /// An exception, and the event that occured on that exception
    Exception { no: u16, event: ExceptionEvent },
    /// Data trace PC value (tied to DWT comparator index)
    DataTracePC { index: u8, addr: u32, len: u8 },
    /// Data trace address (tied to DWT comparator index)
    DataTraceAddr { index: u8, daddr: u32, len: u8 },
    /// Data trace value (tied to DWT comparator index)
    DataTraceValue { index: u8, addr: u32, len: u8, wnr: bool },
    /// Indication of data trace match, with matching comparator
    DataTraceMatch { index: u8 },
    /// Asleep at the point where the PC was sampled, with indication if sleep was prohibited
    PCSleep { prohibited: bool },
    /// PC interval sample value
    PCSample { addr: u32 },
    /// Extension packet with source and ex value
    Xtn { source: bool, len: u8, ex: u32 },
    /// A TPIU sync was received (not a good thing in an ITM flow)
    TPIUSync { count: u64 },
    /// An ITM sync was received
    Sync { count: u64 },
    /// Overflow indication
    Overflow { count: u64 },
    /// Event counter wraparound indication
    EventC {
        cpicnt_wrapped: bool,
        exccnt_wrapped: bool,
        sleepcnt_wrapped: bool,
        lsucnt_wrapped: bool,
        foldcnt_wrapped: bool,
        postcnt_wrapped: bool,
    },
    /// PMU overflow indication
    PMUOverflow { ovf: u8 },
}

/// Statistics about the decode.
#[derive(Debug, Clone, Copy, PartialEq, Eq, Structural)]
pub struct ITMStats {
    /// Number of bytes of input from source
    pub inbytestotal: u64,
    /// Number of input packets processed
    pub inpackets: u64,
    /// Number of TPIU sync messages received
    pub tpiusync: u64,
    /// Number of ITM sync messages received
    pub itmsync: u64,
    /// Number of Instrumentation packets received
    pub instrupkts: u64,
    /// Number of overflow packets received
    pub overflow: u64,
    /// Number of local timestamp packets received
    pub ts: u64,
    /// Number of noise bytes received
    pub noise: u64,
}

/// Kinds of data trace packet.
#[derive(Debug, Clone, Copy, PartialEq, Eq, Structural)]
pub enum DataMatchType {
    /// Single comparator hit
    Match,
    /// PC value
    PCMatch,
    /// Data address
    DataAddrMatch,
    /// Data value
    DataValMatch,
}

/// State of the decoder, with what has been gathered of the packet in progress.
#[derive(Debug, Clone, Copy, PartialEq, Eq, Structural)]
pub enum ITMState {
    /// Out of sync: waiting for an ITM sync
    Unsynced,
    /// In sync, between packets
    Idle,
    /// Software or hardware source packet
    Instrumentation { target: u8, count: u8, addr: u8, data: u32 },
    /// Extension packet
    Xtn { ex: u32, source: bool, bitcount: u8, count: u8 },
    /// Local timestamp, format 1
    Lts { count: u8, ttypen: u8, ts: u64 },
    /// Global timestamp, format 2
    Gts2 { count: u8, gts: u64 },
    /// Global timestamp, format 1
    Gts1 { count: u8, gts: u64, wrap: bool },
    /// Exception trace
    Exception { no: u16, count: u8 },
    /// Data trace packet
    DataTrace { index: u8, len: u8, count: u8, addr: u32, dt_type: DataMatchType, wnr: bool },
    /// Periodic PC sample
    PCSample { len: u8, count: u8, addr: u32 },
    /// Event counter packet
    Event,
    /// PMU overflow packet
    PMUOverflow,
}

/// Packet families, by the header byte that starts them.
#[derive(Debug, Clone, Copy, PartialEq, Eq, Structural)]
pub enum HeaderKind {
    /// Padding byte
    Padding,
    /// Overflow packet
    Overflow,
    /// Global timestamp, format 1
    Gts1,
    /// Global timestamp, format 2
    Gts2,
    /// Local timestamp
    Lts,
    /// Extension packet
    Xtn,
    /// Event counter packet
    Event,
    /// Data trace packet
    DataTrace,
    /// Exception trace packet
    Exception,
    /// Instrumentation packet
    Instrumentation,
    /// Periodic PC sample
    PCSample,
    /// PMU overflow packet
    PMUOverflow,
    /// Not a valid header
    Noise,
}

/// The dispatch table of section F1.1.2, by bit pattern of the header byte. The rows
/// are tried in order: the later ones have broader masks.
pub open spec fn header_kind(tok: u8) -> HeaderKind {
    if tok == 0x00 {
        HeaderKind::Padding  // 0000_0000
    } else if tok == 0x70 {
        HeaderKind::Overflow  // 0111_0000
    } else if tok == 0x94 {
        HeaderKind::Gts1  // 1001_0100
    } else if tok == 0xB4 {
        HeaderKind::Gts2  // 1011_0100
    } else if tok & 0x8F == 0x00 {
        HeaderKind::Lts  // 0xxx_0000
    } else if tok & 0xCF == 0xC0 {
        HeaderKind::Lts  // 11xx_0000
    } else if tok & 0x0B == 0x08 {
        HeaderKind::Xtn  // xxxx_1x00
    } else if tok == 0x05 {
        HeaderKind::Event  // 0000_0101
    } else if tok & 0x03 == 0x00 {
        HeaderKind::Noise  // xxxx_xx00
    } else if tok & 0xC4 == 0x44 {
        HeaderKind::DataTrace  // 01xx_x1xx
    } else if tok == 0x0E {
        HeaderKind::Exception  // 0000_1110
    } else if tok & 0xC4 == 0x84 {
        HeaderKind::DataTrace  // 10xx_x1xx
    } else if tok & 0x04 == 0x00 {
        HeaderKind::Instrumentation  // xxxx_x0xx
    } else if tok & 0xFD == 0x15 {
        HeaderKind::PCSample  // 0001_01x1
    } else if tok == 0x1D {
        HeaderKind::PMUOverflow  // 0001_1101
    } else {
        HeaderKind::Noise
    }
}

/// Kind of a data trace packet, by its header.
pub open spec fn data_match_type(tok: u8) -> DataMatchType {
    if tok & 0xCF == 0x45 {
        DataMatchType::Match  // 01xx_0101
    } else if tok & 0xCC == 0x44 {
        DataMatchType::PCMatch  // 01xx_01xx
    } else if tok & 0xCC == 0x4C {
        DataMatchType::DataAddrMatch  // 01xx_11xx
    } else {
        DataMatchType::DataValMatch  // 10xx_x1xx
    }
}

/// Payload length coded in the two low bits of a header: 1, 2 or 4 bytes.
pub open spec fn size_of_header(tok: u8) -> u8 {
    if tok & 3 == 3 {
        4
    } else {
        tok & 3
    }
}

/// Local timestamp type coded in a header.
pub open spec fn ts_type(ttypen: u8) -> TSType {
    if ttypen == 0 {
        TSType::Sync
    } else if ttypen == 1 {
        TSType::TSDelayed
    } else if ttypen == 2 {
        TSType::DataDelayed
    } else {
        TSType::BothDelayed
    }
}

/// Exception event coded in bits 5:4 of the second payload byte.
pub open spec fn exception_event(b: u8) -> ExceptionEvent {
    let e = (b >> 4) & 3;
    if e == 1 {
        ExceptionEvent::Entry
    } else if e == 2 {
        ExceptionEvent::Exit
    } else if e == 3 {
        ExceptionEvent::Returned
    } else {
        ExceptionEvent::Unknown
    }
}

/// Event counter packet for its payload byte: bits 0 to 5 are the wrap flags.
pub open spec fn event_frame(tok: u8) -> ITMFrame {
    ITMFrame::EventC {
        cpicnt_wrapped: tok & 0x01 != 0,
        exccnt_wrapped: tok & 0x02 != 0,
        sleepcnt_wrapped: tok & 0x04 != 0,
        lsucnt_wrapped: tok & 0x08 != 0,
        foldcnt_wrapped: tok & 0x10 != 0,
        postcnt_wrapped: tok & 0x20 != 0,
    }
}

/// Statistics with every count at zero.
pub open spec fn zero_stats() -> ITMStats {
    ITMStats {
        inbytestotal: 0,
        inpackets: 0,
        tpiusync: 0,
        itmsync: 0,
        instrupkts: 0,
        overflow: 0,
        ts: 0,
        noise: 0,
    }
}

/// Add one to a statistic, saturating at the largest value.
pub open spec fn bump(x: u64) -> u64 {
    if x == u64::MAX {
        x
    } else {
        (x + 1) as u64
    }
}

/// The stateful decoder: current state, sticky state shared between packets, and
/// statistics.
#[derive(Debug)]
pub struct ITMDecoder {
    state: ITMState,
    last_bytes: u64,
    page_register: u8,
    context_idlen: u8,
    gtimestamp: u64,
    stats: ITMStats,
}

/// Bounds that the bit fields of a header byte keep.
proof fn lemma_header_fields(tok: u8)
    by (bit_vector)
    ensures
        tok & 3 <= 3,
        (tok >> 3) & 0x1f <= 31,
        (tok >> 4) & 7 <= 7,
        (tok >> 4) & 3 <= 3,
        tok & 3 == 0 || tok & 3 == 1 || tok & 3 == 2 || tok & 3 == 3,
{
}

impl ITMDecoder {
    /// The accumulators of the packet in progress, and the sticky page register, are
    /// within the bounds that their packets give them.
    pub closed spec fn wf(&self) -> bool {
        &&& self.page_register <= 224
        &&& match self.state {
            ITMState::Instrumentation { target, count, addr, data } => {
                &&& (target == 1 || target == 2 || target == 4)
                &&& count < target
                &&& addr <= 31
            },
            ITMState::Xtn { ex, source, bitcount, count } => {
                &&& count <= 3
                &&& bitcount == 3 + 7 * count
            },
            ITMState::Lts { count, ttypen, ts } => count <= 4,
            ITMState::Gts2 { count, gts } => count <= 7,
            ITMState::Gts1 { count, gts, wrap } => count <= 4,
            ITMState::Exception { no, count } => count <= 1,
            ITMState::DataTrace { index, len, count, addr, dt_type, wnr } => {
                &&& 1 <= len <= 4
                &&& count < len
            },
            ITMState::PCSample { len, count, addr } => {
                &&& 1 <= len <= 4
                &&& count < len
            },
            _ => true,
        }
    }

    /// The current state.
    pub closed spec fn spec_state(&self) -> ITMState {
        self.state
    }

    /// The statistics.
    pub closed spec fn spec_stats(&self) -> ITMStats {
        self.stats
    }

    /// The page register, added to the address of instrumentation packets.
    pub closed spec fn spec_page_register(&self) -> u8 {
        self.page_register
    }

    /// The context id length.
    pub closed spec fn spec_context_idlen(&self) -> u8 {
        self.context_idlen
    }

    /// The last global timestamp.
    pub closed spec fn spec_gtimestamp(&self) -> u64 {
        self.gtimestamp
    }

    /// The window of the last eight bytes received.
    pub closed spec fn spec_last_bytes(&self) -> u64 {
        self.last_bytes
    }
}

/// What the idle state does with a header byte.
pub closed spec fn idle_step(d: ITMDecoder, tok: u8) -> (ITMDecoder, Option<ITMFrame>) {
    match header_kind(tok) {
        HeaderKind::Padding => (d, None),
        HeaderKind::Overflow => {
            let n = bump(d.stats.overflow);
            (
                ITMDecoder { stats: ITMStats { overflow: n, ..d.stats }, ..d },
                Some(ITMFrame::Overflow { count: n }),
            )
        },
        HeaderKind::Gts1 => (
            ITMDecoder { state: ITMState::Gts1 { count: 0, gts: d.gtimestamp, wrap: false }, ..d },
            None,
        ),
        HeaderKind::Gts2 => (ITMDecoder { state: ITMState::Gts2 { count: 0, gts: 0 }, ..d }, None),
        HeaderKind::Lts => {
            let d1 = ITMDecoder { stats: ITMStats { ts: bump(d.stats.ts), ..d.stats }, ..d };
            if tok & 0x80 == 0 {
                (
                    ITMDecoder { state: ITMState::Idle, ..d1 },
                    Some(ITMFrame::Timestamp { ttype: TSType::Sync, ts: ((tok >> 4) & 7) as u64 }),
                )
            } else {
                (
                    ITMDecoder {
                        state: ITMState::Lts { count: 0, ttypen: (tok >> 4) & 3, ts: 0 },
                        ..d1
                    },
                    None,
                )
            }
        },
        HeaderKind::Xtn => if tok & 0x80 == 0 {
            if tok & 4 != 0 {
                (
                    ITMDecoder {
                        state: ITMState::Idle,
                        page_register: (32 * ((tok >> 4) & 7)) as u8,
                        ..d
                    },
                    None,
                )
            } else {
                (
                    ITMDecoder { state: ITMState::Idle, ..d },
                    Some(ITMFrame::Xtn { source: false, len: 0, ex: ((tok >> 4) & 7) as u32 }),
                )
            }
        } else {
            (
                ITMDecoder {
                    state: ITMState::Xtn {
                        source: tok & 4 != 0,
                        ex: ((tok >> 4) & 7) as u32,
                        count: 0,
                        bitcount: 3,
                    },
                    ..d
                },
                None,
            )
        },
        HeaderKind::Event => (ITMDecoder { state: ITMState::Event, ..d }, None),
        HeaderKind::DataTrace => (
            ITMDecoder {
                state: ITMState::DataTrace {
                    index: (tok >> 4) & 3,
                    addr: 0,
                    len: size_of_header(tok),
                    count: 0,
                    wnr: tok & 8 != 0,
                    dt_type: data_match_type(tok),
                },
                ..d
            },
            None,
        ),
        HeaderKind::Exception => (
            ITMDecoder { state: ITMState::Exception { no: 0, count: 0 }, ..d },
            None,
        ),
        HeaderKind::Instrumentation => (
            ITMDecoder {
                state: ITMState::Instrumentation {
                    target: size_of_header(tok),
                    count: 0,
                    addr: (tok >> 3) & 0x1f,
                    data: 0,
                },
                stats: ITMStats { instrupkts: bump(d.stats.instrupkts), ..d.stats },
                ..d
            },
            None,
        ),
        HeaderKind::PCSample => (
            ITMDecoder {
                state: ITMState::PCSample { addr: 0, len: size_of_header(tok), count: 0 },
                ..d
            },
            None,
        ),
        HeaderKind::PMUOverflow => (ITMDecoder { state: ITMState::PMUOverflow, ..d }, None),
        HeaderKind::Noise => (
            ITMDecoder { stats: ITMStats { noise: bump(d.stats.noise), ..d.stats }, ..d },
            None,
        ),
    }
}

/// What the current state does with a byte that is not part of a sync.
pub closed spec fn state_step(d: ITMDecoder, tok: u8) -> (ITMDecoder, Option<ITMFrame>) {
    match d.state {
        ITMState::Unsynced => (d, None),
        ITMState::Idle => idle_step(d, tok),
        ITMState::Instrumentation { target, count, addr, data } => {
            let data1 = if count <= 4 { data | ((tok as u32) << (8 * count) as u32) } else { data };
            let count1 = if count <= 4 { (count + 1) as u8 } else { count };
            if count1 == target {
                (
                    ITMDecoder { state: ITMState::Idle, ..d },
                    Some(ITMFrame::Instrumentation {
                        addr: (addr + d.page_register) as u8,
                        data: data1,
                        len: target,
                    }),
                )
            } else {
                (
                    ITMDecoder {
                        state: ITMState::Instrumentation { target, count: count1, addr, data: data1 },
                        ..d
                    },
                    None,
                )
            }
        },
        ITMState::Xtn { ex, source, bitcount, count } => {
            let ex1 = if count < 3 {
                ex | (((tok & 0x7f) as u32) << bitcount)
            } else {
                ex | ((tok as u32) << bitcount)
            };
            let count1 = (count + 1) as u8;
            if tok & 0x80 == 0 || count1 == 4 {
                (
                    ITMDecoder { state: ITMState::Idle, ..d },
                    Some(ITMFrame::Xtn { source, len: count1, ex: ex1 }),
                )
            } else {
                (
                    ITMDecoder {
                        state: ITMState::Xtn { ex: ex1, source, bitcount: (bitcount + 7) as u8, count: count1 },
                        ..d
                    },
                    None,
                )
            }
        },
        ITMState::Lts { count, ttypen, ts } => {
            let ts1 = if count < 4 { ts | (((tok & 0x7f) as u64) << (7 * count) as u64) } else { ts };
            let count1 = if count < 4 { (count + 1) as u8 } else { count };
            if tok & 0x80 == 0 {
                (
                    ITMDecoder { state: ITMState::Idle, ..d },
                    Some(ITMFrame::Timestamp { ttype: ts_type(ttypen), ts: ts1 }),
                )
            } else {
                (ITMDecoder { state: ITMState::Lts { count: count1, ttypen, ts: ts1 }, ..d }, None)
            }
        },
        ITMState::Gts2 { count, gts } => {
            let gts1 = if count < 7 { gts | (((tok & 0x7f) as u64) << (7 * count) as u64) } else { gts };
            let count1 = if count < 7 { (count + 1) as u8 } else { count };
            if tok & 0x80 == 0 {
                (
                    ITMDecoder { state: ITMState::Idle, gtimestamp: gts1, ..d },
                    Some(ITMFrame::Globaltimestamp { has_wrapped: false, ts: gts1 }),
                )
            } else {
                (ITMDecoder { state: ITMState::Gts2 { count: count1, gts: gts1 }, ..d }, None)
            }
        },
        ITMState::Gts1 { count, gts, wrap } => {
            let shift = (7 * count) as u64;
            let count1 = if count <= 3 { (count + 1) as u8 } else { count };
            let wrap1 = if count == 3 { tok & 0x40 != 0 } else { wrap };
            let gts1 = if count == 3 {
                (gts & !(0x1f_u64 << shift)) | (((tok & 0x1f) as u64) << shift)
            } else if count < 3 {
                (gts & !(0x7f_u64 << shift)) | (((tok & 0x7f) as u64) << shift)
            } else {
                gts
            };
            if tok & 0x80 == 0 {
                (
                    ITMDecoder { state: ITMState::Idle, gtimestamp: gts1, ..d },
                    Some(ITMFrame::Globaltimestamp { has_wrapped: wrap1, ts: gts1 }),
                )
            } else {
                (
                    ITMDecoder { state: ITMState::Gts1 { count: count1, gts: gts1, wrap: wrap1 }, ..d },
                    None,
                )
            }
        },
        ITMState::Exception { no, count } => if count == 0 {
            (ITMDecoder { state: ITMState::Exception { no: tok as u16, count: 1 }, ..d }, None)
        } else {
            (
                ITMDecoder { state: ITMState::Idle, ..d },
                Some(ITMFrame::Exception {
                    no: no | (((tok & 1) as u16) << 8u16),
                    event: exception_event(tok),
                }),
            )
        },
        ITMState::DataTrace { index, len, count, addr, dt_type, wnr } => {
            let addr1 = addr | ((tok as u32) << (count * 8) as u32);
            let count1 = (count + 1) as u8;
            if dt_type == DataMatchType::Match && len == 1 && tok & 1 == 1 {
                (
                    ITMDecoder { state: ITMState::Idle, ..d },
                    Some(ITMFrame::DataTraceMatch { index }),
                )
            } else if count1 == len {
                (
                    ITMDecoder { state: ITMState::Idle, ..d },
                    Some(
                        match dt_type {
                            DataMatchType::DataValMatch => ITMFrame::DataTraceValue {
                                index,
                                addr: addr1,
                                len,
                                wnr,
                            },
                            DataMatchType::DataAddrMatch => ITMFrame::DataTraceAddr {
                                index,
                                daddr: addr1,
                                len,
                            },
                            _ => ITMFrame::DataTracePC { index, addr: addr1, len },
                        },
                    ),
                )
            } else {
                (
                    ITMDecoder {
                        state: ITMState::DataTrace { index, len, count: count1, addr: addr1, dt_type, wnr },
                        ..d
                    },
                    None,
                )
            }
        },
        ITMState::PCSample { len, count, addr } => if len == 1 {
            (
                ITMDecoder { state: ITMState::Idle, ..d },
                Some(ITMFrame::PCSleep { prohibited: tok == 0xff }),
            )
        } else {
            let addr1 = addr | ((tok as u32) << (count * 8) as u32);
            let count1 = (count + 1) as u8;
            if count1 == len {
                (ITMDecoder { state: ITMState::Idle, ..d }, Some(ITMFrame::PCSample { addr: addr1 }))
            } else {
                (ITMDecoder { state: ITMState::PCSample { len, count: count1, addr: addr1 }, ..d }, None)
            }
        },
        ITMState::Event => (ITMDecoder { state: ITMState::Idle, ..d }, Some(event_frame(tok))),
        ITMState::PMUOverflow => (
            ITMDecoder { state: ITMState::Idle, ..d },
            Some(ITMFrame::PMUOverflow { ovf: tok }),
        ),
    }
}

/// One byte through the decoder: the window of last bytes is updated and checked for
/// a TPIU sync, then for an ITM sync; otherwise the current state takes the byte.
/// Gives the new decoder and the message the byte completed, if any.
pub closed spec fn step(d: ITMDecoder, tok: u8) -> (ITMDecoder, Option<ITMFrame>) {
    let lb = (d.last_bytes << 8u64) | (tok as u64);
    let d0 = ITMDecoder {
        last_bytes: lb,
        stats: ITMStats { inbytestotal: bump(d.stats.inbytestotal), ..d.stats },
        ..d
    };
    if lb & TPIU_SYNCMASK == TPIU_SYNCPATTERN {
        let n = bump(d0.stats.tpiusync);
        (
            ITMDecoder {
                state: ITMState::Unsynced,
                stats: ITMStats { tpiusync: n, inpackets: bump(d0.stats.inpackets), ..d0.stats },
                ..d0
            },
            Some(ITMFrame::TPIUSync { count: n }),
        )
    } else if lb & ITM_SYNCMASK == ITM_SYNCPATTERN {
        let n = bump(d0.stats.itmsync);
        (
            ITMDecoder {
                state: ITMState::Idle,
                page_register: 0,
                stats: ITMStats { itmsync: n, inpackets: bump(d0.stats.inpackets), ..d0.stats },
                ..d0
            },
            Some(ITMFrame::Sync { count: n }),
        )
    } else {
        let (d1, f) = state_step(d0, tok);
        if f is Some {
            (ITMDecoder { stats: ITMStats { inpackets: bump(d1.stats.inpackets), ..d1.stats }, ..d1 }, f)
        } else {
            (d1, f)
        }
    }
}

/// Bytes fed one by one until a message is complete or the bytes run out: the new
/// decoder, how many bytes were taken, and the message, if one was completed.
pub open spec fn decode_until(d: ITMDecoder, bytes: Seq<u8>) -> (ITMDecoder, nat, Option<ITMFrame>)
    decreases bytes.len(),
{
    if bytes.len() == 0 {
        (d, 0, None)
    } else {
        let (d1, f) = step(d, bytes[0]);
        if f is Some {
            (d1, 1, f)
        } else {
            let (d2, k, f2) = decode_until(d1, bytes.drop_first());
            (d2, k + 1, f2)
        }
    }
}

/// The ITM sync sequence: five zero bytes, then 0x80.
pub open spec fn itm_sync_sequence() -> Seq<u8> {
    seq![0u8, 0u8, 0u8, 0u8, 0u8, 0x80u8]
}

/// The window of last bytes as the sync sequence moves through it.
proof fn lemma_window(x: u64, t: u8)
    by (bit_vector)
    ensures
        t == 0 ==> ((x << 8u64) | (t as u64)) & 0xFFFFFFFF != 0xFFFFFF7F,
        t == 0 ==> ((x << 8u64) | (t as u64)) & 0xFFFFFFFFFFFF != 0x80,
        t == 0 ==> ((x << 8u64) | (t as u64)) & 0xFF == 0,
        t == 0 && x & 0xFF == 0 ==> ((x << 8u64) | (t as u64)) & 0xFFFF == 0,
        t == 0 && x & 0xFFFF == 0 ==> ((x << 8u64) | (t as u64)) & 0xFFFFFF == 0,
        t == 0 && x & 0xFFFFFF == 0 ==> ((x << 8u64) | (t as u64)) & 0xFFFFFFFF == 0,
        t == 0 && x & 0xFFFFFFFF == 0 ==> ((x << 8u64) | (t as u64)) & 0xFFFFFFFFFF == 0,
        t == 0x80 ==> ((x << 8u64) | (t as u64)) & 0xFFFFFFFF != 0xFFFFFF7F,
        t == 0x80 && x & 0xFFFFFFFFFF == 0 ==> ((x << 8u64) | (t as u64)) & 0xFFFFFFFFFFFF
            == 0x80,
{
}

/// The low `8 * j` bits of the window are zero: the last `j` bytes were zero.
spec fn window_zero(x: u64, j: int) -> bool {
    if j <= 0 {
        true
    } else if j == 1 {
        x & 0xFF == 0
    } else if j == 2 {
        x & 0xFFFF == 0
    } else if j == 3 {
        x & 0xFFFFFF == 0
    } else if j == 4 {
        x & 0xFFFFFFFF == 0
    } else {
        x & 0xFFFFFFFFFF == 0
    }
}

/// A well-formed decoder stays well-formed, and every message leaves the decoder idle
/// but a TPIU sync, which leaves it out of sync.
proof fn lemma_step_wf(d: ITMDecoder, tok: u8)
    requires
        d.wf(),
    ensures
        step(d, tok).0.wf(),
        step(d, tok).1 matches Some(f) ==> (f is TPIUSync && step(d, tok).0.state
            == ITMState::Unsynced) || step(d, tok).0.state == ITMState::Idle,
        step(d, tok).0.stats.itmsync == d.stats.itmsync || step(d, tok).1 matches Some(
            ITMFrame::Sync { .. },
        ),
{
    lemma_header_fields(tok);
}

/// A zero byte: no sync of either kind, the window gains a zero byte, the ITM sync
/// count is kept, and a decoder with no packet in progress stays so and gives nothing.
proof fn lemma_zero_byte(d: ITMDecoder, j: int)
    requires
        d.wf(),
        0 <= j < 5,
        window_zero(d.last_bytes, j),
    ensures
        step(d, 0).0.wf(),
        window_zero(step(d, 0).0.last_bytes, j + 1),
        step(d, 0).0.stats.itmsync == d.stats.itmsync,
        step(d, 0).1 is Some ==> step(d, 0).0.state == ITMState::Idle,
        (d.state == ITMState::Idle || d.state == ITMState::Unsynced) ==> step(d, 0).1 is None
            && step(d, 0).0.state == d.state,
{
    lemma_window(d.last_bytes, 0);
    lemma_step_wf(d, 0);
}

/// The end of the sync sequence from a decoder with no packet in progress.
proof fn lemma_sync_tail_quiet(d: ITMDecoder, j: int)
    requires
        d.wf(),
        0 <= j <= 5,
        window_zero(d.last_bytes, j),
        d.state == ITMState::Idle || d.state == ITMState::Unsynced,
    ensures
        ({
            let r = decode_until(d, itm_sync_sequence().subrange(j, 6));
            &&& r.1 == 6 - j
            &&& r.2 == Some(ITMFrame::Sync { count: bump(d.stats.itmsync) })
            &&& r.0.state == ITMState::Idle
            &&& r.0.page_register == 0
        }),
    decreases 5 - j,
{
    let s = itm_sync_sequence().subrange(j, 6);
    if j == 5 {
        lemma_window(d.last_bytes, 0x80);
        assert(s.drop_first() =~= Seq::<u8>::empty());
    } else {
        lemma_zero_byte(d, j);
        assert(s[0] == 0);
        assert(s.drop_first() =~= itm_sync_sequence().subrange(j + 1, 6));
        lemma_sync_tail_quiet(step(d, 0).0, j + 1);
    }
}

/// The end of the sync sequence from any decoder: either the Sync message, or one
/// message that a packet in progress completes, after which the decoder is idle.
proof fn lemma_sync_tail(d: ITMDecoder, j: int)
    requires
        d.wf(),
        0 <= j <= 5,
        window_zero(d.last_bytes, j),
    ensures
        ({
            let r = decode_until(d, itm_sync_sequence().subrange(j, 6));
            ||| {
                &&& r.1 == 6 - j
                &&& r.2 == Some(ITMFrame::Sync { count: bump(d.stats.itmsync) })
                &&& r.0.state == ITMState::Idle
                &&& r.0.page_register == 0
            }
            ||| {
                &&& 1 <= r.1
                &&& j + r.1 <= 5
                &&& r.2 is Some
                &&& r.0.wf()
                &&& r.0.state == ITMState::Idle
                &&& r.0.stats.itmsync == d.stats.itmsync
                &&& window_zero(r.0.last_bytes, j + r.1)
            }
        }),
    decreases 5 - j,
{
    let s = itm_sync_sequence().subrange(j, 6);
    if j == 5 {
        lemma_window(d.last_bytes, 0x80);
        assert(s.drop_first() =~= Seq::<u8>::empty());
    } else {
        lemma_zero_byte(d, j);
        assert(s[0] == 0);
        assert(s.drop_first() =~= itm_sync_sequence().subrange(j + 1, 6));
        lemma_sync_tail(step(d, 0).0, j + 1);
    }
}

/// Resynchronisation: from any state, the ITM sync sequence (five zero bytes, then
/// 0x80) makes the decoder give a Sync message, either at once or after one message
/// that the zero bytes complete (a packet already in progress). After the Sync the
/// decoder is idle, with page register 0.
pub proof fn lemma_sync_sequence_resyncs(d: ITMDecoder)
    requires
        d.wf(),
    ensures
        ({
            let s = itm_sync_sequence();
            let sync = ITMFrame::Sync { count: bump(d.spec_stats().itmsync) };
            let first = decode_until(d, s);
            let second = decode_until(first.0, s.subrange(first.1 as int, 6));
            ||| {
                &&& first.1 == 6
                &&& first.2 == Some(sync)
                &&& first.0.spec_state() == ITMState::Idle
                &&& first.0.spec_page_register() == 0
            }
            ||| {
                &&& 1 <= first.1 <= 5
                &&& first.2 is Some
                &&& first.1 + second.1 == 6
                &&& second.2 == Some(sync)
                &&& second.0.spec_state() == ITMState::Idle
                &&& second.0.spec_page_register() == 0
            }
        }),
{
    let s = itm_sync_sequence();
    assert(s.subrange(0, 6) =~= s);
    lemma_sync_tail(d, 0);
    let first = decode_until(d, s);
    if first.1 <= 5 {
        lemma_sync_tail_quiet(first.0, first.1 as int);
    }
}

/// Payload length coded in the two low bits of a header.
fn header_size(tok: u8) -> (r: u8)
    ensures
        r == size_of_header(tok),
{
    if tok & 3 == 3 {
        4
    } else {
        tok & 3
    }
}

/// The state that a data trace header starts.
fn data_trace_state(tok: u8) -> (r: ITMState)
    ensures
        r == (ITMState::DataTrace {
            index: (tok >> 4) & 3,
            addr: 0,
            len: size_of_header(tok),
            count: 0,
            wnr: tok & 8 != 0,
            dt_type: data_match_type(tok),
        }),
{
    let dt_type = if tok & 0xCF == 0x45 {
        DataMatchType::Match
    } else if tok & 0xCC == 0x44 {
        DataMatchType::PCMatch
    } else if tok & 0xCC == 0x4C {
        DataMatchType::DataAddrMatch
    } else {
        DataMatchType::DataValMatch
    };
    ITMState::DataTrace {
        index: (tok >> 4) & 3,
        addr: 0,
        len: header_size(tok),
        count: 0,
        wnr: tok & 8 != 0,
        dt_type,
    }
}

impl ITMDecoder {
    /// New instance, out of sync, with zeroed statistics.
    pub fn new() -> (r: Self)
        ensures
            r.wf(),
            r.spec_state() == ITMState::Unsynced,
            r.spec_page_register() == 0,
            r.spec_context_idlen() == 0,
            r.spec_gtimestamp() == 0,
            r.spec_last_bytes() == 0,
            r.spec_stats() == zero_stats(),
    {
        ITMDecoder {
            state: ITMState::Unsynced,
            last_bytes: 0,
            page_register: 0,
            context_idlen: 0,
            gtimestamp: 0,
            stats: ITMStats {
                inbytestotal: 0,
                inpackets: 0,
                tpiusync: 0,
                itmsync: 0,
                instrupkts: 0,
                overflow: 0,
                ts: 0,
                noise: 0,
            },
        }
    }

    /// New instance that starts in sync when `sync_required` is false, and otherwise
    /// waits for an ITM sync as [`ITMDecoder::new`] does.
    pub fn new_with_sync(sync_required: bool) -> (r: Self)
        ensures
            r.wf(),
            r.spec_state() == if sync_required {
                ITMState::Unsynced
            } else {
                ITMState::Idle
            },
            r.spec_page_register() == 0,
            r.spec_stats() == zero_stats(),
    {
        let mut d = ITMDecoder::new();
        if !sync_required {
            d.state = ITMState::Idle;
        }
        d
    }

    /// Statistics of the decode so far.
    pub fn stats(&self) -> (r: &ITMStats)
        ensures
            *r == self.spec_stats(),
    {
        &self.stats
    }

    /// Set the context id length, which the decoder cannot learn from the flow.
    pub fn set_context_idlen(&mut self, l: u8)
        ensures
            final(self).spec_context_idlen() == l,
            final(self).spec_state() == old(self).spec_state(),
            final(self).spec_stats() == old(self).spec_stats(),
            final(self).spec_page_register() == old(self).spec_page_register(),
            final(self).spec_gtimestamp() == old(self).spec_gtimestamp(),
            final(self).spec_last_bytes() == old(self).spec_last_bytes(),
            old(self).wf() ==> final(self).wf(),
    {
        self.context_idlen = l;
    }

    /// Feed the bytes of `data` from position `pos` on through the decoder until a
    /// message is complete (`Ok`) or the bytes run out (`ShortData`); `pos` moves
    /// past the bytes taken. A message cut short is completed by later calls.
    pub fn get_frame(&mut self, data: &[u8], pos: &mut usize) -> (r: Result<ITMFrame, ITMError>)
        requires
            old(self).wf(),
            *old(pos) <= data@.len(),
        ensures
            final(self).wf(),
            ({
                let res = decode_until(*old(self), data@.subrange(*old(pos) as int, data@.len() as int));
                &&& *final(self) == res.0
                &&& *final(pos) == *old(pos) + res.1
                &&& match res.2 {
                    Some(f) => r == Ok::<ITMFrame, ITMError>(f),
                    None => r == Err::<ITMFrame, ITMError>(ITMError::ShortData),
                }
            }),
            *final(pos) <= data@.len(),
            r is Err ==> *final(pos) == data@.len(),
            r is Ok ==> *final(pos) > *old(pos),
    {
        let ghost d0 = *self;
        let ghost start = *pos;
        let ghost res = decode_until(d0, data@.subrange(start as int, data@.len() as int));
        while *pos < data.len()
            invariant
                start <= *pos <= data@.len(),
                d0 == *old(self),
                start == *old(pos),
                self.wf(),
                res == decode_until(d0, data@.subrange(start as int, data@.len() as int)),
                ({
                    let cur = decode_until(*self, data@.subrange(*pos as int, data@.len() as int));
                    &&& cur.0 == res.0
                    &&& cur.1 + (*pos - start) == res.1
                    &&& cur.2 == res.2
                }),
            decreases data@.len() - *pos,
        {
            let ghost rest = data@.subrange(*pos as int, data@.len() as int);
            assert(rest.drop_first() =~= data@.subrange(*pos + 1, data@.len() as int));
            let ghost before = *self;
            let t = data[*pos];
            *pos = *pos + 1;
            match self.token(t) {
                Some(f) => {
                    assert(decode_until(before, rest) == (*self, 1nat, Some(f)));
                    return Ok(f);
                },
                None => {},
            }
        }
        assert(data@.subrange(*pos as int, data@.len() as int) =~= Seq::<u8>::empty());
        Err(ITMError::ShortData)
    }

    /// Process one byte, returning the message it completed, if any.
    fn token(&mut self, tok: u8) -> (r: Option<ITMFrame>)
        requires
            old(self).wf(),
        ensures
            (*final(self), r) == step(*old(self), tok),
            final(self).wf(),
    {
        self.last_bytes = (self.last_bytes << 8u64) | (tok as u64);
        self.stats.inbytestotal = self.stats.inbytestotal.saturating_add(1);
        if self.last_bytes & TPIU_SYNCMASK == TPIU_SYNCPATTERN {
            self.stats.tpiusync = self.stats.tpiusync.saturating_add(1);
            self.stats.inpackets = self.stats.inpackets.saturating_add(1);
            self.state = ITMState::Unsynced;
            return Some(ITMFrame::TPIUSync { count: self.stats.tpiusync });
        }
        if self.last_bytes & ITM_SYNCMASK == ITM_SYNCPATTERN {
            self.stats.itmsync = self.stats.itmsync.saturating_add(1);
            self.page_register = 0;
            self.stats.inpackets = self.stats.inpackets.saturating_add(1);
            self.state = ITMState::Idle;
            return Some(ITMFrame::Sync { count: self.stats.itmsync });
        }
        let retval = self.state_token(tok);
        if retval.is_some() {
            self.stats.inpackets = self.stats.inpackets.saturating_add(1);
        }
        retval
    }

    /// The current state takes one byte.
    fn state_token(&mut self, tok: u8) -> (r: Option<ITMFrame>)
        requires
            old(self).wf(),
        ensures
            (*final(self), r) == state_step(*old(self), tok),
            final(self).wf(),
    {
        match self.state {
            ITMState::Unsynced => None,
            ITMState::Idle => self.idle_token(tok),
            ITMState::Instrumentation { target, count, addr, data } => {
                let data1 = data | ((tok as u32) << (8 * count) as u32);
                let count1 = count + 1;
                if count1 == target {
                    self.state = ITMState::Idle;
                    Some(ITMFrame::Instrumentation { addr: addr + self.page_register, data: data1, len: target })
                } else {
                    self.state = ITMState::Instrumentation { target, count: count1, addr, data: data1 };
                    None
                }
            },
            ITMState::Xtn { ex, source, bitcount, count } => {
                let ex1 = if count < 3 {
                    ex | (((tok & 0x7f) as u32) << (bitcount as u32))
                } else {
                    ex | ((tok as u32) << (bitcount as u32))
                };
                let count1 = count + 1;
                if tok & 0x80 == 0 || count1 == 4 {
                    self.state = ITMState::Idle;
                    Some(ITMFrame::Xtn { source, len: count1, ex: ex1 })
                } else {
                    self.state = ITMState::Xtn { ex: ex1, source, bitcount: bitcount + 7, count: count1 };
                    None
                }
            },
            ITMState::Lts { count, ttypen, ts } => {
                let mut ts1 = ts;
                let mut count1 = count;
                if count < 4 {
                    ts1 = ts | (((tok & 0x7f) as u64) << (7 * count) as u64);
                    count1 = count + 1;
                }
                if tok & 0x80 == 0 {
                    self.state = ITMState::Idle;
                    let ttype = if ttypen == 0 {
                        TSType::Sync
                    } else if ttypen == 1 {
                        TSType::TSDelayed
                    } else if ttypen == 2 {
                        TSType::DataDelayed
                    } else {
                        TSType::BothDelayed
                    };
                    Some(ITMFrame::Timestamp { ttype, ts: ts1 })
                } else {
                    self.state = ITMState::Lts { count: count1, ttypen, ts: ts1 };
                    None
                }
            },
            ITMState::Gts2 { count, gts } => {
                let mut gts1 = gts;
                let mut count1 = count;
                if count < 7 {
                    gts1 = gts | (((tok & 0x7f) as u64) << (7 * count) as u64);
                    count1 = count + 1;
                }
                if tok & 0x80 == 0 {
                    self.gtimestamp = gts1;
                    self.state = ITMState::Idle;
                    Some(ITMFrame::Globaltimestamp { has_wrapped: false, ts: gts1 })
                } else {
                    self.state = ITMState::Gts2 { count: count1, gts: gts1 };
                    None
                }
            },
            ITMState::Gts1 { count, gts, wrap } => {
                let shift = (7 * count) as u64;
                let mut gts1 = gts;
                let mut wrap1 = wrap;
                let mut count1 = count;
                if count <= 3 {
                    count1 = count + 1;
                    if count1 == 4 {
                        wrap1 = tok & 0x40 != 0;
                        gts1 = (gts & !(0x1f_u64 << shift)) | (((tok & 0x1f) as u64) << shift);
                    } else {
                        gts1 = (gts & !(0x7f_u64 << shift)) | (((tok & 0x7f) as u64) << shift);
                    }
                }
                if tok & 0x80 == 0 {
                    self.gtimestamp = gts1;
                    self.state = ITMState::Idle;
                    Some(ITMFrame::Globaltimestamp { has_wrapped: wrap1, ts: gts1 })
                } else {
                    self.state = ITMState::Gts1 { count: count1, gts: gts1, wrap: wrap1 };
                    None
                }
            },
            ITMState::Exception { no, count } => {
                if count == 0 {
                    self.state = ITMState::Exception { no: tok as u16, count: 1 };
                    None
                } else {
                    let e = (tok >> 4) & 3;
                    let event = if e == 1 {
                        ExceptionEvent::Entry
                    } else if e == 2 {
                        ExceptionEvent::Exit
                    } else if e == 3 {
                        ExceptionEvent::Returned
                    } else {
                        ExceptionEvent::Unknown
                    };
                    self.state = ITMState::Idle;
                    Some(ITMFrame::Exception { no: no | (((tok & 1) as u16) << 8u16), event })
                }
            },
            ITMState::DataTrace { index, len, count, addr, dt_type, wnr } => {
                let addr1 = addr | ((tok as u32) << (count * 8) as u32);
                let count1 = count + 1;
                if dt_type == DataMatchType::Match && len == 1 && tok & 1 == 1 {
                    self.state = ITMState::Idle;
                    Some(ITMFrame::DataTraceMatch { index })
                } else if count1 == len {
                    self.state = ITMState::Idle;
                    match dt_type {
                        DataMatchType::DataValMatch => Some(
                            ITMFrame::DataTraceValue { index, addr: addr1, len, wnr },
                        ),
                        DataMatchType::DataAddrMatch => Some(
                            ITMFrame::DataTraceAddr { index, daddr: addr1, len },
                        ),
                        _ => Some(ITMFrame::DataTracePC { index, addr: addr1, len }),
                    }
                } else {
                    self.state = ITMState::DataTrace { index, len, count: count1, addr: addr1, dt_type, wnr };
                    None
                }
            },
            ITMState::PCSample { len, count, addr } => {
                if len == 1 {
                    self.state = ITMState::Idle;
                    Some(ITMFrame::PCSleep { prohibited: tok == 0xff })
                } else {
                    let addr1 = addr | ((tok as u32) << (count * 8) as u32);
                    let count1 = count + 1;
                    if count1 == len {
                        self.state = ITMState::Idle;
                        Some(ITMFrame::PCSample { addr: addr1 })
                    } else {
                        self.state = ITMState::PCSample { len, count: count1, addr: addr1 };
                        None
                    }
                }
            },
            ITMState::Event => {
                self.state = ITMState::Idle;
                Some(
                    ITMFrame::EventC {
                        cpicnt_wrapped: tok & 0x01 != 0,
                        exccnt_wrapped: tok & 0x02 != 0,
                        sleepcnt_wrapped: tok & 0x04 != 0,
                        lsucnt_wrapped: tok & 0x08 != 0,
                        foldcnt_wrapped: tok & 0x10 != 0,
                        postcnt_wrapped: tok & 0x20 != 0,
                    },
                )
            },
            ITMState::PMUOverflow => {
                self.state = ITMState::Idle;
                Some(ITMFrame::PMUOverflow { ovf: tok })
            },
        }
    }

    /// The idle state takes a header byte, by the dispatch table of section F1.1.2.
    fn idle_token(&mut self, tok: u8) -> (r: Option<ITMFrame>)
        requires
            old(self).wf(),
            old(self).state == ITMState::Idle,
        ensures
            (*final(self), r) == idle_step(*old(self), tok),
            final(self).wf(),
    {
        proof {
            lemma_header_fields(tok);
        }
        if tok == 0x00 {
            None
        } else if tok == 0x70 {
            self.stats.overflow = self.stats.overflow.saturating_add(1);
            Some(ITMFrame::Overflow { count: self.stats.overflow })
        } else if tok == 0x94 {
            self.state = ITMState::Gts1 { count: 0, gts: self.gtimestamp, wrap: false };
            None
        } else if tok == 0xB4 {
            self.state = ITMState::Gts2 { count: 0, gts: 0 };
            None
        } else if tok & 0x8F == 0x00 || tok & 0xCF == 0xC0 {
            self.stats.ts = self.stats.ts.saturating_add(1);
            if tok & 0x80 == 0 {
                Some(ITMFrame::Timestamp { ttype: TSType::Sync, ts: ((tok >> 4) & 7) as u64 })
            } else {
                self.state = ITMState::Lts { count: 0, ttypen: (tok >> 4) & 3, ts: 0 };
                None
            }
        } else if tok & 0x0B == 0x08 {
            if tok & 0x80 == 0 {
                if tok & 4 != 0 {
                    self.page_register = 32 * ((tok >> 4) & 7);
                    None
                } else {
                    Some(ITMFrame::Xtn { source: false, len: 0, ex: ((tok >> 4) & 7) as u32 })
                }
            } else {
                self.state = ITMState::Xtn {
                    source: tok & 4 != 0,
                    ex: ((tok >> 4) & 7) as u32,
                    count: 0,
                    bitcount: 3,
                };
                None
            }
        } else if tok == 0x05 {
            self.state = ITMState::Event;
            None
        } else if tok & 0x03 == 0x00 {
            self.stats.noise = self.stats.noise.saturating_add(1);
            None
        } else if tok & 0xC4 == 0x44 {
            self.state = data_trace_state(tok);
            None
        } else if tok == 0x0E {
            self.state = ITMState::Exception { no: 0, count: 0 };
            None
        } else if tok & 0xC4 == 0x84 {
            self.state = data_trace_state(tok);
            None
        } else if tok & 0x04 == 0x00 {
            self.stats.instrupkts = self.stats.instrupkts.saturating_add(1);
            self.state = ITMState::Instrumentation {
                target: header_size(tok),
                count: 0,
                addr: (tok >> 3) & 0x1f,
                data: 0,
            };
            None
        } else if tok & 0xFD == 0x15 {
            self.state = ITMState::PCSample { addr: 0, len: header_size(tok), count: 0 };
            None
        } else if tok == 0x1D {
            self.state = ITMState::PMUOverflow;
            None
        } else {
            self.stats.noise = self.stats.noise.saturating_add(1);
            None
        }
    }
}

impl Default for ITMDecoder {
    fn default() -> (r: Self)
        ensures
            r.wf(),
            r.spec_state() == ITMState::Unsynced,
            r.spec_stats() == zero_stats(),
    {
        Self::new()
    }
}

} // verus!
