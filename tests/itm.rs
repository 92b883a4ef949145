use orbtrace::itm::{ExceptionEvent, ITMDecoder, ITMError, ITMFrame, TSType};

#[test]
fn test_sync() {
    let mut i = ITMDecoder::new();
    let ip = vec![0x00, 0x00, 0x00, 0x00, 0x00, 0x80];

    let g = i.get_frame(&ip, &mut 0usize);
    assert_eq!(Ok(ITMFrame::Sync { count: 1 }), g);
}

#[test]
fn test_nosync() {
    let mut i = ITMDecoder::new();
    let ip = vec![0x00, 0x00, 0x00, 0x00, 0x20, 0x80];

    let g = i.get_frame(&ip, &mut 0usize);
    assert_eq!(Err(ITMError::ShortData), g);
}

#[test]
fn test_tpiusync() {
    let mut i = ITMDecoder::new();
    let ip = vec![0x00, 0xff, 0xff, 0xff, 0x7f, 0x80];

    let g = i.get_frame(&ip, &mut 0usize);
    assert_eq!(Ok(ITMFrame::TPIUSync { count: 1 }), g);
}

#[test]
fn test_overflow() {
    let mut i = ITMDecoder::new();
    let ip = vec![0x00, 0x00, 0x00, 0x00, 0x00, 0x80, 0x70];
    let mut pos = 0usize;

    let g = i.get_frame(&ip, &mut pos);
    assert_eq!(Ok(ITMFrame::Sync { count: 1 }), g);
    let g = i.get_frame(&ip, &mut pos);
    assert_eq!(Ok(ITMFrame::Overflow { count: 1 }), g);
}

#[test]
fn test_local_ts_2() {
    let mut i = ITMDecoder::new();
    let ip = vec![0x00, 0x00, 0x00, 0x00, 0x00, 0x80, 0x30];
    let mut pos = 0usize;

    let g = i.get_frame(&ip, &mut pos);
    assert_eq!(Ok(ITMFrame::Sync { count: 1 }), g);
    let g = i.get_frame(&ip, &mut pos);
    assert_eq!(
        Ok(ITMFrame::Timestamp {
            ttype: TSType::Sync,
            ts: 3
        }),
        g
    );
}

#[test]
fn test_local_ts_1() {
    let mut i = ITMDecoder::new();
    let ip = vec![
        0x00, 0x00, 0x00, 0x00, 0x00, 0x80, // Sync
        0xD0, 0x85, 0x82, 0x01, // TS Type 1 value 0x4105
        0xE0, 0x85, 0x85, 0x85, 0x85, 0x85, 0x00, // Type 1 with extra byte
    ];
    let mut pos = 0usize;

    let g = i.get_frame(&ip, &mut pos);
    assert_eq!(Ok(ITMFrame::Sync { count: 1 }), g);
    let g = i.get_frame(&ip, &mut pos);
    assert_eq!(
        Ok(ITMFrame::Timestamp {
            ttype: TSType::TSDelayed,
            ts: 0x4105
        }),
        g
    );
    let g = i.get_frame(&ip, &mut pos);
    assert_eq!(
        Ok(ITMFrame::Timestamp {
            ttype: TSType::DataDelayed,
            ts: 0xa14285
        }),
        g
    );
}

#[test]
fn test_gts_1() {
    let mut i = ITMDecoder::new();
    let ip = vec![
        0x00, 0x00, 0x00, 0x00, 0x00, 0x80, // Sync
        0x94, 0x42, // Simple short packet
        0x94, 0xf3, 0x92, 0xd0, 0x4f, // Full length 48 bit with wrap
        0x94, 0xf3, 0x92, 0xd0, 0xff, 0x22, // Non-compliant
        0x94, 0xff, 0x7f, // Change 14 bits
    ];
    let mut pos = 0usize;
    let g = i.get_frame(&ip, &mut pos);
    assert_eq!(Ok(ITMFrame::Sync { count: 1 }), g);

    let g = i.get_frame(&ip, &mut pos);
    assert_eq!(
        Ok(ITMFrame::Globaltimestamp {
            has_wrapped: false,
            ts: 0x42
        }),
        g,
        "Simple short packet"
    );
    let g = i.get_frame(&ip, &mut pos);
    assert_eq!(
        Ok(ITMFrame::Globaltimestamp {
            has_wrapped: true,
            ts: 0x1f40973
        }),
        g,
        "48 bit packet with wrap"
    );
    let g = i.get_frame(&ip, &mut pos);
    assert_eq!(
        Ok(ITMFrame::Globaltimestamp {
            has_wrapped: true,
            ts: 0x3f40973
        }),
        g,
        "Non-compliant overlong packet with wrap"
    );
    let g = i.get_frame(&ip, &mut pos);
    assert_eq!(
        Ok(ITMFrame::Globaltimestamp {
            has_wrapped: false,
            ts: 0x3f43fff
        }),
        g,
        "Replace bottom 14 bits"
    );
}

#[test]
fn test_gts_2() {
    let mut i = ITMDecoder::new();
    let ip = vec![
        0x00, 0x00, 0x00, 0x00, 0x00, 0x80, // Sync
        0xb4, 0x84, 0x81, 0x82, 0x83, 0x01, // 48 bit format, good packet
        0xb4, 0x84, 0x81, 0x82, 0x83, 0x81, 0x01, // Illegal, but we handle it
        0xb4, 0x84, 0x81, 0x82, 0x83, 0x81, 0x81, 0x07, // Full length 64 bit packet
    ];
    let mut pos = 0usize;
    let g = i.get_frame(&ip, &mut pos);
    assert_eq!(Ok(ITMFrame::Sync { count: 1 }), g);

    let g = i.get_frame(&ip, &mut pos);
    assert_eq!(
        Ok(ITMFrame::Globaltimestamp {
            has_wrapped: false,
            ts: 0x10608084
        }),
        g,
        "Simple 48-bit test"
    );

    let g = i.get_frame(&ip, &mut pos);
    assert_eq!(
        Ok(ITMFrame::Globaltimestamp {
            has_wrapped: false,
            ts: 0x810608084
        }),
        g,
        "Illegal length frame"
    );

    let g = i.get_frame(&ip, &mut pos);
    assert_eq!(
        Ok(ITMFrame::Globaltimestamp {
            has_wrapped: false,
            ts: 0x1C0810608084
        }),
        g,
        "64 bit frame"
    );
}

#[test]
fn test_instrumentation_source() {
    let mut i = ITMDecoder::new();
    let ip = vec![
        0x00, 0x00, 0x00, 0x00, 0x00, 0x80, // Sync
        0x01, 0x22, // Simple software source packet
        0x93, 0x11, 0x22, 0x33, 0x44, // 4 Bytes
        0xF2, 0x99, 0x12, // 2 Bytes
    ];
    let mut pos = 0usize;
    let g = i.get_frame(&ip, &mut pos);
    assert_eq!(Ok(ITMFrame::Sync { count: 1 }), g);

    let g = i.get_frame(&ip, &mut pos);
    assert_eq!(
        Ok(ITMFrame::Instrumentation {
            addr: 0,
            data: 0x22,
            len: 1,
        }),
        g,
        "Single byte to port 0"
    );

    let g = i.get_frame(&ip, &mut pos);
    assert_eq!(
        Ok(ITMFrame::Instrumentation {
            addr: 18,
            data: 0x44332211,
            len: 4,
        }),
        g,
        "Four bytes to port 18"
    );

    let g = i.get_frame(&ip, &mut pos);
    assert_eq!(
        Ok(ITMFrame::Instrumentation {
            addr: 30,
            data: 0x1299,
            len: 2,
        }),
        g,
        "Two bytes to port 30"
    );
}

#[test]
fn test_sw_page_no() {
    let mut i = ITMDecoder::new();
    let ip = vec![
        0x00, 0x00, 0x00, 0x00, 0x00, 0x80, // Sync
        0x1C, // Set page 1 (Nos 32..63)
        0x01, 0x22, // Simple software source packet
        0x7C, // Set page 7 (Nos 224..255)
        0x93, 0x11, 0x22, 0x33, 0x44, // 4 Bytes
    ];
    let mut pos = 0usize;
    let g = i.get_frame(&ip, &mut pos);
    assert_eq!(Ok(ITMFrame::Sync { count: 1 }), g);

    let g = i.get_frame(&ip, &mut pos);
    assert_eq!(
        Ok(ITMFrame::Instrumentation {
            addr: 32,
            data: 0x22,
            len: 1,
        }),
        g,
        "Single byte to port 0"
    );

    let g = i.get_frame(&ip, &mut pos);
    assert_eq!(
        Ok(ITMFrame::Instrumentation {
            addr: 224 + 18,
            data: 0x44332211,
            len: 4,
        }),
        g,
        "Four bytes to port 242"
    );
}

#[test]
fn test_xtn() {
    let mut i = ITMDecoder::new();
    let ip = vec![
        0x00, 0x00, 0x00, 0x00, 0x00, 0x80, // Sync
        0x88, 0x22, // Single byte extension packet
        0xa8, 0x93, 0x82, 0x23, // Three byte packet
        0xac, 0x93, 0x82, 0x23, // Three byte packet with source set
    ];
    let mut pos = 0usize;
    let g = i.get_frame(&ip, &mut pos);
    assert_eq!(Ok(ITMFrame::Sync { count: 1 }), g);

    let g = i.get_frame(&ip, &mut pos);
    assert_eq!(
        Ok(ITMFrame::Xtn {
            source: false,
            len: 1,
            ex: 0x110
        }),
        g,
        "Single byte to port 0"
    );

    let g = i.get_frame(&ip, &mut pos);
    assert_eq!(
        Ok(ITMFrame::Xtn {
            source: false,
            len: 3,
            ex: 0x46089a
        }),
        g,
        "Three bytes to port 2"
    );

    let g = i.get_frame(&ip, &mut pos);
    assert_eq!(
        Ok(ITMFrame::Xtn {
            source: true,
            len: 3,
            ex: 0x46089a
        }),
        g,
        "Three bytes to port 2 with source"
    );
}

#[test]
fn test_event() {
    let mut i = ITMDecoder::new();
    let ip = vec![
        0x00, 0x00, 0x00, 0x00, 0x00, 0x80, // Sync
        0x05, 0x01, // CPI Wrap Event
        0x05, 0x02, // Exc Wrap Event
        0x05, 0x04, // Sleep Wrap Event
        0x05, 0x08, // LSU Wrap Event
        0x05, 0x10, // FOLD Wrap Event
        0x05, 0x20, // POST Wrap Event
        0x05, 0x00, // No Wrap
        0x05, 0x3F, // All wrap
    ];
    let mut pos = 0usize;
    let g = i.get_frame(&ip, &mut pos);
    assert_eq!(Ok(ITMFrame::Sync { count: 1 }), g);

    let g = i.get_frame(&ip, &mut pos);
    assert_eq!(
        Ok(ITMFrame::EventC {
            cpicnt_wrapped: true,
            exccnt_wrapped: false,
            sleepcnt_wrapped: false,
            lsucnt_wrapped: false,
            foldcnt_wrapped: false,
            postcnt_wrapped: false,
        }),
        g,
        "CPI Rollover"
    );

    let g = i.get_frame(&ip, &mut pos);
    assert_eq!(
        Ok(ITMFrame::EventC {
            cpicnt_wrapped: false,
            exccnt_wrapped: true,
            sleepcnt_wrapped: false,
            lsucnt_wrapped: false,
            foldcnt_wrapped: false,
            postcnt_wrapped: false,
        }),
        g,
        "EXC Rollover"
    );

    let g = i.get_frame(&ip, &mut pos);
    assert_eq!(
        Ok(ITMFrame::EventC {
            cpicnt_wrapped: false,
            exccnt_wrapped: false,
            sleepcnt_wrapped: true,
            lsucnt_wrapped: false,
            foldcnt_wrapped: false,
            postcnt_wrapped: false,
        }),
        g,
        "SLEEP Rollover"
    );

    let g = i.get_frame(&ip, &mut pos);
    assert_eq!(
        Ok(ITMFrame::EventC {
            cpicnt_wrapped: false,
            exccnt_wrapped: false,
            sleepcnt_wrapped: false,
            lsucnt_wrapped: true,
            foldcnt_wrapped: false,
            postcnt_wrapped: false,
        }),
        g,
        "LSU Rollover"
    );

    let g = i.get_frame(&ip, &mut pos);
    assert_eq!(
        Ok(ITMFrame::EventC {
            cpicnt_wrapped: false,
            exccnt_wrapped: false,
            sleepcnt_wrapped: false,
            lsucnt_wrapped: false,
            foldcnt_wrapped: true,
            postcnt_wrapped: false,
        }),
        g,
        "FOLD Rollover"
    );

    let g = i.get_frame(&ip, &mut pos);
    assert_eq!(
        Ok(ITMFrame::EventC {
            cpicnt_wrapped: false,
            exccnt_wrapped: false,
            sleepcnt_wrapped: false,
            lsucnt_wrapped: false,
            foldcnt_wrapped: false,
            postcnt_wrapped: true,
        }),
        g,
        "POST Rollover"
    );

    let g = i.get_frame(&ip, &mut pos);
    assert_eq!(
        Ok(ITMFrame::EventC {
            cpicnt_wrapped: false,
            exccnt_wrapped: false,
            sleepcnt_wrapped: false,
            lsucnt_wrapped: false,
            foldcnt_wrapped: false,
            postcnt_wrapped: false,
        }),
        g,
        "No Rollover"
    );

    let g = i.get_frame(&ip, &mut pos);
    assert_eq!(
        Ok(ITMFrame::EventC {
            cpicnt_wrapped: true,
            exccnt_wrapped: true,
            sleepcnt_wrapped: true,
            lsucnt_wrapped: true,
            foldcnt_wrapped: true,
            postcnt_wrapped: true,
        }),
        g,
        "ALL Rollover"
    );
}

#[test]
fn test_pmuovf() {
    let mut i = ITMDecoder::new();
    let ip = vec![
        0x00, 0x00, 0x00, 0x00, 0x00, 0x80, // Sync
        0x1d, 0x42, // PMU Overflow
    ];
    let mut pos = 0usize;
    let g = i.get_frame(&ip, &mut pos);
    assert_eq!(Ok(ITMFrame::Sync { count: 1 }), g);

    let g = i.get_frame(&ip, &mut pos);
    assert_eq!(Ok(ITMFrame::PMUOverflow { ovf: 0x42 }), g);
}

#[test]
fn test_exception() {
    let mut i = ITMDecoder::new();
    let ip = vec![
        0x00, 0x00, 0x00, 0x00, 0x00, 0x80, // Sync
        0x0e, 0x42, 0x11, // Exception 0x142, Entry
        0x0e, 0x99, 0x20, // Exception 0x99, Exit
        0x0e, 0x01, 0x31, // Exception 0x101, Resume
    ];

    let mut pos = 0usize;
    let g = i.get_frame(&ip, &mut pos);
    assert_eq!(Ok(ITMFrame::Sync { count: 1 }), g);

    let g = i.get_frame(&ip, &mut pos);
    assert_eq!(
        Ok(ITMFrame::Exception {
            no: 0x142,
            event: ExceptionEvent::Entry
        }),
        g
    );

    let g = i.get_frame(&ip, &mut pos);
    assert_eq!(
        Ok(ITMFrame::Exception {
            no: 0x99,
            event: ExceptionEvent::Exit
        }),
        g
    );
    let g = i.get_frame(&ip, &mut pos);
    assert_eq!(
        Ok(ITMFrame::Exception {
            no: 0x101,
            event: ExceptionEvent::Returned
        }),
        g
    )
}

#[test]
fn test_datatrace_match() {
    let mut i = ITMDecoder::new();
    let ip = vec![
        0x00, 0x00, 0x00, 0x00, 0x00, 0x80, // Sync
        0x45, 0x01, 0x75, 0x01,
    ];

    let mut pos = 0usize;
    let g = i.get_frame(&ip, &mut pos);
    assert_eq!(Ok(ITMFrame::Sync { count: 1 }), g);

    let g = i.get_frame(&ip, &mut pos);
    assert_eq!(Ok(ITMFrame::DataTraceMatch { index: 0 }), g);

    let g = i.get_frame(&ip, &mut pos);
    assert_eq!(Ok(ITMFrame::DataTraceMatch { index: 3 }), g);
}

#[test]
fn test_datatrace_pc() {
    let mut i = ITMDecoder::new();
    let ip = vec![
        0x00, 0x00, 0x00, 0x00, 0x00, 0x80, // Sync
        0x45, 0x40, // Short PC packet
        0x76, 0x02, 0x43, // Medium PC packet
        0x77, 0x02, 0x04, 0x08, 0x10, // Long PC packet
    ];

    let mut pos = 0usize;
    let g = i.get_frame(&ip, &mut pos);
    assert_eq!(Ok(ITMFrame::Sync { count: 1 }), g);

    let g = i.get_frame(&ip, &mut pos);
    assert_eq!(
        Ok(ITMFrame::DataTracePC {
            index: 0,
            addr: 0x40,
            len: 1
        }),
        g
    );

    let g = i.get_frame(&ip, &mut pos);
    assert_eq!(
        Ok(ITMFrame::DataTracePC {
            index: 3,
            addr: 0x4302,
            len: 2
        }),
        g
    );

    let g = i.get_frame(&ip, &mut pos);
    assert_eq!(
        Ok(ITMFrame::DataTracePC {
            index: 3,
            addr: 0x10080402,
            len: 4
        }),
        g
    );
}

#[test]
fn test_datatrace_addr() {
    let mut i = ITMDecoder::new();
    let ip = vec![
        0x00, 0x00, 0x00, 0x00, 0x00, 0x80, // Sync
        0x4d, 0x40, // Short DataAddr packet
        0x7e, 0x02, 0x43, // Medium DataAddr packet
        0x7f, 0x02, 0x04, 0x08, 0x10, // Long DataAddr packet
    ];

    let mut pos = 0usize;
    let g = i.get_frame(&ip, &mut pos);
    assert_eq!(Ok(ITMFrame::Sync { count: 1 }), g);

    let g = i.get_frame(&ip, &mut pos);
    assert_eq!(
        Ok(ITMFrame::DataTraceAddr {
            index: 0,
            daddr: 0x40,
            len: 1
        }),
        g
    );

    let g = i.get_frame(&ip, &mut pos);
    assert_eq!(
        Ok(ITMFrame::DataTraceAddr {
            index: 3,
            daddr: 0x4302,
            len: 2
        }),
        g
    );

    let g = i.get_frame(&ip, &mut pos);
    assert_eq!(
        Ok(ITMFrame::DataTraceAddr {
            index: 3,
            daddr: 0x10080402,
            len: 4
        }),
        g
    );
}

#[test]
fn test_datatrace_value() {
    let mut i = ITMDecoder::new();
    let ip = vec![
        0x00, 0x00, 0x00, 0x00, 0x00, 0x80, // Sync
        0x8d, 0x40, // Short, write, len=1, idx=0
        0x96, 0x02, 0x43, // Medium
        0xaf, 0x02, 0x04, 0x08, 0x10, // Long
    ];

    let mut pos = 0usize;
    let g = i.get_frame(&ip, &mut pos);
    assert_eq!(Ok(ITMFrame::Sync { count: 1 }), g);

    let g = i.get_frame(&ip, &mut pos);
    assert_eq!(
        Ok(ITMFrame::DataTraceValue {
            index: 0,
            addr: 0x40,
            len: 1,
            wnr: true
        }),
        g
    );

    let g = i.get_frame(&ip, &mut pos);
    assert_eq!(
        Ok(ITMFrame::DataTraceValue {
            index: 1,
            addr: 0x4302,
            len: 2,
            wnr: false
        }),
        g
    );
    let g = i.get_frame(&ip, &mut pos);
    assert_eq!(
        Ok(ITMFrame::DataTraceValue {
            index: 2,
            addr: 0x10080402,
            len: 4,
            wnr: true
        }),
        g
    );
}
#[test]
fn test_trace_pc() {
    let mut i = ITMDecoder::new();
    let ip = vec![
        0x00, 0x00, 0x00, 0x00, 0x00, 0x80, // Sync
        0x15, 0x00, // Sleeping, not prohib
        0x15, 0xff, // Sleeping, prohib
        0x17, 0x01, 0x02, 0x03, 0x04, // Sample address
        0x17, 0xfa, 0xfb, 0xfc, 0xfd, // Sample address
    ];

    let mut pos = 0usize;
    let g = i.get_frame(&ip, &mut pos);
    assert_eq!(Ok(ITMFrame::Sync { count: 1 }), g);

    let g = i.get_frame(&ip, &mut pos);
    assert_eq!(Ok(ITMFrame::PCSleep { prohibited: false }), g);

    let g = i.get_frame(&ip, &mut pos);
    assert_eq!(Ok(ITMFrame::PCSleep { prohibited: true }), g);

    let g = i.get_frame(&ip, &mut pos);
    assert_eq!(Ok(ITMFrame::PCSample { addr: 0x04030201 }), g);

    let g = i.get_frame(&ip, &mut pos);
    assert_eq!(Ok(ITMFrame::PCSample { addr: 0xfdfcfbfa }), g);
}

#[test]
fn test_futz() {
    let mut i = ITMDecoder::new();
    let ip = vec![
        0x00, 0x00, 0x00, 0x00, 0x00, 0x80, // Sync
    ];

    let _ = i.get_frame(&ip, &mut 0usize);
    let randomv: Vec<u8> = (1..20000).map(|_| fastrand::u8(0..255)).collect();

    let mut rpos = 0usize;
    loop {
        let g = i.get_frame(&randomv, &mut rpos);
        if g.is_err() {
            break;
        }
    }
    let mut pos = 0usize;
    let mut g = i.get_frame(&ip, &mut pos);
    println!("Last Frame:{:?}", g);

    /* See if there was anything left, so this wasn't the end sync */
    if pos < ip.len() {
        g = i.get_frame(&ip, &mut pos);
        println!("Very Last Frame:{:?}", g);
    }

    /* It is _possible_ there would be a sync in the regular flow, but */
    /* given that its 6 bytes long the chance is 1 in (1/256)^6 */
    assert_eq!(Ok(ITMFrame::Sync { count: 2 }), g);
}

const SYNC: [u8; 6] = [0x00, 0x00, 0x00, 0x00, 0x00, 0x80];

fn synced(tail: &[u8]) -> Vec<u8> {
    let mut v = SYNC.to_vec();
    v.extend_from_slice(tail);
    v
}

#[test]
fn sync_sequence_alone() {
    let mut i = ITMDecoder::new();
    let mut pos = 0usize;
    assert_eq!(i.get_frame(&SYNC, &mut pos), Ok(ITMFrame::Sync { count: 1 }));
    assert_eq!(pos, 6);
    assert_eq!(i.stats().itmsync, 1);
    assert_eq!(i.stats().inbytestotal, 6);
}

#[test]
fn single_byte_instrumentation() {
    let ip = synced(&[0x01, 0x22]);
    let mut i = ITMDecoder::new();
    let mut pos = 0usize;
    assert_eq!(i.get_frame(&ip, &mut pos), Ok(ITMFrame::Sync { count: 1 }));
    assert_eq!(
        i.get_frame(&ip, &mut pos),
        Ok(ITMFrame::Instrumentation { addr: 0, data: 0x22, len: 1 })
    );
    assert_eq!(pos, ip.len());
}

#[test]
fn four_byte_instrumentation() {
    let ip = synced(&[0x93, 0x11, 0x22, 0x33, 0x44]);
    let mut i = ITMDecoder::new();
    let mut pos = 0usize;
    let _ = i.get_frame(&ip, &mut pos);
    assert_eq!(
        i.get_frame(&ip, &mut pos),
        Ok(ITMFrame::Instrumentation { addr: 18, data: 0x44332211, len: 4 })
    );
    assert_eq!(i.stats().instrupkts, 1);
}

#[test]
fn page_register_then_instrumentation() {
    let ip = synced(&[0x1C, 0x01, 0x22]);
    let mut i = ITMDecoder::new();
    let mut pos = 0usize;
    let _ = i.get_frame(&ip, &mut pos);
    assert_eq!(
        i.get_frame(&ip, &mut pos),
        Ok(ITMFrame::Instrumentation { addr: 32, data: 0x22, len: 1 })
    );
}

#[test]
fn exception_entry() {
    let ip = synced(&[0x0e, 0x42, 0x11]);
    let mut i = ITMDecoder::new();
    let mut pos = 0usize;
    let _ = i.get_frame(&ip, &mut pos);
    assert_eq!(
        i.get_frame(&ip, &mut pos),
        Ok(ITMFrame::Exception { no: 0x142, event: ExceptionEvent::Entry })
    );
}

#[test]
fn global_timestamp_wrap() {
    let ip = synced(&[0x94, 0xf3, 0x92, 0xd0, 0x4f]);
    let mut i = ITMDecoder::new();
    let mut pos = 0usize;
    let _ = i.get_frame(&ip, &mut pos);
    assert_eq!(
        i.get_frame(&ip, &mut pos),
        Ok(ITMFrame::Globaltimestamp { has_wrapped: true, ts: 0x1f40973 })
    );
}

#[test]
fn exception_number_511_unknown_event() {
    let ip = synced(&[0x0e, 0xff, 0x01]);
    let mut i = ITMDecoder::new();
    let mut pos = 0usize;
    let _ = i.get_frame(&ip, &mut pos);
    assert_eq!(
        i.get_frame(&ip, &mut pos),
        Ok(ITMFrame::Exception { no: 511, event: ExceptionEvent::Unknown })
    );
}

#[test]
fn local_timestamp_beyond_28_bits_is_capped() {
    // Five continuation bytes: only the first four contribute (28 bits).
    let ip = synced(&[0xF0, 0xFE, 0xFE, 0xFE, 0xFE, 0x7F]);
    let mut i = ITMDecoder::new();
    let mut pos = 0usize;
    let _ = i.get_frame(&ip, &mut pos);
    assert_eq!(
        i.get_frame(&ip, &mut pos),
        Ok(ITMFrame::Timestamp { ttype: TSType::BothDelayed, ts: 0x0FDF_BF7E })
    );
    assert_eq!(i.stats().ts, 1);
}

#[test]
fn page_register_top_page_and_top_port() {
    // Page 7 and port 31 give address 255.
    let ip = synced(&[0x7C, 0xF9, 0x5A]);
    let mut i = ITMDecoder::new();
    let mut pos = 0usize;
    let _ = i.get_frame(&ip, &mut pos);
    assert_eq!(
        i.get_frame(&ip, &mut pos),
        Ok(ITMFrame::Instrumentation { addr: 255, data: 0x5A, len: 1 })
    );
}

#[test]
fn sync_resets_page_register() {
    let mut ip = synced(&[0x3C]);
    ip.extend_from_slice(&SYNC);
    ip.extend_from_slice(&[0x01, 0x10]);
    let mut i = ITMDecoder::new();
    let mut pos = 0usize;
    assert_eq!(i.get_frame(&ip, &mut pos), Ok(ITMFrame::Sync { count: 1 }));
    assert_eq!(i.get_frame(&ip, &mut pos), Ok(ITMFrame::Sync { count: 2 }));
    assert_eq!(
        i.get_frame(&ip, &mut pos),
        Ok(ITMFrame::Instrumentation { addr: 0, data: 0x10, len: 1 })
    );
}

#[test]
fn datatrace_match_needs_bit_zero() {
    // Match kind, len 1: bit 0 clear gives a PC value instead of a match.
    let ip = synced(&[0x55, 0x02, 0x55, 0x03]);
    let mut i = ITMDecoder::new();
    let mut pos = 0usize;
    let _ = i.get_frame(&ip, &mut pos);
    assert_eq!(
        i.get_frame(&ip, &mut pos),
        Ok(ITMFrame::DataTracePC { index: 1, addr: 0x02, len: 1 })
    );
    assert_eq!(i.get_frame(&ip, &mut pos), Ok(ITMFrame::DataTraceMatch { index: 1 }));
}

#[test]
fn noise_and_padding_give_nothing() {
    let ip = synced(&[0x00, 0x44, 0x80, 0x04]);
    let mut i = ITMDecoder::new();
    let mut pos = 0usize;
    let _ = i.get_frame(&ip, &mut pos);
    assert_eq!(i.get_frame(&ip, &mut pos), Err(ITMError::ShortData));
    assert_eq!(pos, ip.len());
    assert_eq!(i.stats().noise, 3);
}

#[test]
fn short_data_resumes_across_calls() {
    let first = synced(&[0x93, 0x11, 0x22]);
    let second = [0x33u8, 0x44];
    let mut i = ITMDecoder::new();
    let mut pos = 0usize;
    let _ = i.get_frame(&first, &mut pos);
    assert_eq!(i.get_frame(&first, &mut pos), Err(ITMError::ShortData));
    let mut pos2 = 0usize;
    assert_eq!(
        i.get_frame(&second, &mut pos2),
        Ok(ITMFrame::Instrumentation { addr: 18, data: 0x44332211, len: 4 })
    );
}

#[test]
fn unsynced_ignores_everything_but_sync() {
    let ip = [0x01u8, 0x22, 0x70, 0x05, 0x01];
    let mut i = ITMDecoder::new();
    let mut pos = 0usize;
    assert_eq!(i.get_frame(&ip, &mut pos), Err(ITMError::ShortData));
    assert_eq!(i.stats().inpackets, 0);
    assert_eq!(i.stats().inbytestotal, 5);
}

#[test]
fn tpiu_sync_drops_out_of_sync() {
    let ip = synced(&[0xFF, 0xFF, 0xFF, 0x7F, 0x01, 0x22]);
    let mut i = ITMDecoder::new();
    let mut pos = 0usize;
    let _ = i.get_frame(&ip, &mut pos);
    assert_eq!(i.get_frame(&ip, &mut pos), Ok(ITMFrame::TPIUSync { count: 1 }));
    assert_eq!(i.get_frame(&ip, &mut pos), Err(ITMError::ShortData));
}

#[test]
fn starts_in_sync_when_not_required() {
    let ip = [0x01u8, 0x22];
    let mut i = ITMDecoder::new_with_sync(false);
    let mut pos = 0usize;
    assert_eq!(
        i.get_frame(&ip, &mut pos),
        Ok(ITMFrame::Instrumentation { addr: 0, data: 0x22, len: 1 })
    );
}

#[test]
fn random_bytes_then_sync_sequence_resyncs() {
    for seed in 0..50u64 {
        fastrand::seed(seed);
        let noise: Vec<u8> = (0..500).map(|_| fastrand::u8(..)).collect();
        let mut i = ITMDecoder::new();
        let mut pos = 0usize;
        while i.get_frame(&noise, &mut pos).is_ok() {}
        let syncs = i.stats().itmsync;
        let mut spos = 0usize;
        let mut g = i.get_frame(&SYNC, &mut spos);
        if spos < SYNC.len() {
            assert!(!matches!(g, Ok(ITMFrame::Sync { .. })));
            g = i.get_frame(&SYNC, &mut spos);
        }
        assert_eq!(spos, SYNC.len());
        assert_eq!(g, Ok(ITMFrame::Sync { count: syncs + 1 }));
    }
}

#[test]
fn overflow_counts_up() {
    let ip = synced(&[0x70, 0x70]);
    let mut i = ITMDecoder::new();
    let mut pos = 0usize;
    let _ = i.get_frame(&ip, &mut pos);
    assert_eq!(i.get_frame(&ip, &mut pos), Ok(ITMFrame::Overflow { count: 1 }));
    assert_eq!(i.get_frame(&ip, &mut pos), Ok(ITMFrame::Overflow { count: 2 }));
    assert_eq!(i.stats().inpackets, 3);
}

#[test]
fn context_id_length_is_kept() {
    let mut i = ITMDecoder::default();
    i.set_context_idlen(8);
    let mut pos = 0usize;
    assert_eq!(i.get_frame(&SYNC, &mut pos), Ok(ITMFrame::Sync { count: 1 }));
}

#[test]
fn xtn_fourth_byte_is_eight_bits_and_last() {
    let ip = synced(&[0x88, 0x81, 0x80, 0x80, 0xFF, 0x01, 0x22]);
    let mut i = ITMDecoder::new();
    let mut pos = 0usize;
    let _ = i.get_frame(&ip, &mut pos);
    assert_eq!(
        i.get_frame(&ip, &mut pos),
        Ok(ITMFrame::Xtn { source: false, len: 4, ex: 0xFF00_0008 })
    );
    assert_eq!(
        i.get_frame(&ip, &mut pos),
        Ok(ITMFrame::Instrumentation { addr: 0, data: 0x22, len: 1 })
    );
}
