use poulpe_ethercat::engine::{
    apply_commands, get_slave_current_state, is_slave_ready, BusStatus, CycleEngine, PendingWrite,
    AL_STATE_OP, SLAVE_STATE_UNKNOWN,
};
use poulpe_ethercat::layout::{
    get_reg_addr_range, get_reg_addr_ranges, ByteRange, PdoEntry, PdoOffsets, SlaveOffsets,
};
use poulpe_ethercat::mailboxes::verify_mailbox_pdos;
use poulpe_ethercat::watchdog::{
    parse_watchdog_from_status, verify_watchdog, write_watchdog_to_control,
};

fn entry(bit_len: u8, byte_offset: usize) -> PdoEntry {
    PdoEntry { bit_len, byte_offset }
}

/// One slave: controlword at 0..2, target_position x2 at 2..10,
/// statusword at 10..12, mailbox input "temperature" at 12..16.
fn one_slave_layout() -> SlaveOffsets {
    let mut s = PdoOffsets::new();
    s = s.register_entry("controlword".to_string(), entry(16, 0));
    s = s.register_entry("target_position".to_string(), entry(32, 2));
    s = s.register_entry("target_position".to_string(), entry(32, 6));
    s = s.register_entry("statusword".to_string(), entry(16, 10));
    s = s.register_entry("temperature".to_string(), entry(32, 12));
    SlaveOffsets { slaves: vec![s] }
}

fn range(start: usize, end: usize) -> ByteRange {
    ByteRange { start, end }
}

#[test]
fn replicas_of_a_name_accumulate_in_order() {
    let offsets = one_slave_layout();
    let name = "target_position".to_string();
    assert_eq!(get_reg_addr_range(&offsets, 0, &name, 0), Some(range(2, 6)));
    assert_eq!(get_reg_addr_range(&offsets, 0, &name, 1), Some(range(6, 10)));
    assert_eq!(get_reg_addr_range(&offsets, 0, &name, 2), None);
    assert_eq!(get_reg_addr_range(&offsets, 1, &name, 0), None);
    assert_eq!(
        get_reg_addr_ranges(&offsets, 0, &name),
        vec![range(2, 6), range(6, 10)]
    );
    assert!(get_reg_addr_ranges(&offsets, 0, &"missing".to_string()).is_empty());
    assert_eq!(offsets.slaves[0].registers.len(), 4);
}

#[test]
fn later_queued_write_wins_on_overlap() {
    let mut image = vec![0u8; 8];
    let writes = vec![
        PendingWrite { range: range(0, 4), bytes: vec![1, 1, 1, 1] },
        PendingWrite { range: range(2, 6), bytes: vec![2, 2, 2, 2] },
        // wrong length: skipped
        PendingWrite { range: range(6, 8), bytes: vec![9] },
        // outside the image: skipped
        PendingWrite { range: range(7, 9), bytes: vec![9, 9] },
    ];
    apply_commands(&mut image, &writes);
    assert_eq!(image, vec![1, 1, 2, 2, 2, 2, 0, 0]);
}

#[test]
fn watchdog_counter_bits_round_trip() {
    // status bit 8 -> counter bit 0, bits 14 and 15 -> counter bits 1 and 2
    assert_eq!(parse_watchdog_from_status(&vec![0x37, 0b0100_0001]), 0b011);
    assert_eq!(parse_watchdog_from_status(&vec![0x37, 0b1100_0000]), 0b110);
    assert_eq!(parse_watchdog_from_status(&vec![0x37, 0b0011_1110]), 0);
    assert_eq!(
        write_watchdog_to_control(vec![0x0F, 0b1111_1111], 0b101),
        vec![0x0F, 0b0010_1111]
    );
    assert_eq!(write_watchdog_to_control(vec![0x06, 0], 7), vec![0x06, 0b0011_1000]);
}

fn watchdog_tick(
    data: &mut Vec<u8>,
    now_us: u64,
    counter: u8,
    ts: &mut Vec<u64>,
    resp: &mut Vec<bool>,
    prev: &mut Vec<u8>,
) -> bool {
    verify_watchdog(
        1,
        data,
        now_us,
        1000,
        counter,
        &vec![vec![range(0, 2)]],
        &vec![vec![range(10, 12)]],
        ts,
        resp,
        prev,
    )
}

#[test]
fn frozen_heartbeat_flips_after_the_timeout() {
    let mut ts = vec![0u64];
    let mut resp = vec![true];
    let mut prev = vec![0u8];
    let mut data = vec![0u8; 16];
    // the slave returns 0b011 and then freezes
    data[11] = 0b0100_0001;
    assert!(watchdog_tick(&mut data, 0, 1, &mut ts, &mut resp, &mut prev));
    assert_eq!(prev[0], 0b011);
    assert_eq!(data[1] >> 3, 1);
    let mut t = 1_000u64;
    while t <= 1_000_000 {
        assert!(watchdog_tick(&mut data, t, 2, &mut ts, &mut resp, &mut prev));
        t += 1_000;
    }
    // just over one second without change
    assert!(!watchdog_tick(&mut data, 1_001_000, 3, &mut ts, &mut resp, &mut prev));
    assert!(!resp[0]);
    assert!(!watchdog_tick(&mut data, 1_100_000, 4, &mut ts, &mut resp, &mut prev));
    // the counter moves again: fresh at the next tick
    data[11] = 0b1000_0000;
    assert!(watchdog_tick(&mut data, 1_101_000, 5, &mut ts, &mut resp, &mut prev));
    assert!(resp[0]);
    assert_eq!(ts[0], 1_101_000);
}

#[test]
fn silent_mailbox_marks_the_slave_after_the_wait_time() {
    let offs = vec![vec![range(12, 16)]];
    let mut ts = vec![0u64];
    let mut resp = vec![true];
    let mut buf: Vec<Vec<Vec<u8>>> = vec![vec![]];
    let mut data = vec![0u8; 16];
    data[12..16].copy_from_slice(&[1, 2, 3, 4]);
    assert!(verify_mailbox_pdos(1, &mut data, 0, &offs, &mut ts, &mut resp, &mut buf, 1000));
    assert_eq!(buf[0], vec![vec![1, 2, 3, 4]]);
    // zeroes within the wait time: the cached payload is written back
    data[12..16].copy_from_slice(&[0, 0, 0, 0]);
    assert!(verify_mailbox_pdos(1, &mut data, 500_000, &offs, &mut ts, &mut resp, &mut buf, 1000));
    assert_eq!(&data[12..16], &[1, 2, 3, 4]);
    // zeroes for more than the wait time
    data[12..16].copy_from_slice(&[0, 0, 0, 0]);
    assert!(!verify_mailbox_pdos(1, &mut data, 1_200_000, &offs, &mut ts, &mut resp, &mut buf, 1000));
    assert!(!resp[0]);
    assert_eq!(&data[12..16], &[0, 0, 0, 0]);
    // content again: responding at once
    data[12..16].copy_from_slice(&[5, 0, 0, 0]);
    assert!(verify_mailbox_pdos(1, &mut data, 1_201_000, &offs, &mut ts, &mut resp, &mut buf, 1000));
    assert!(resp[0]);
    assert_eq!(ts[0], 1_201_000);
}

#[test]
fn slave_state_requires_every_liveness_check() {
    assert_eq!(get_slave_current_state(true, true, Some(AL_STATE_OP)), AL_STATE_OP);
    assert_eq!(get_slave_current_state(false, true, Some(AL_STATE_OP)), 0);
    assert_eq!(get_slave_current_state(true, false, Some(AL_STATE_OP)), 0);
    assert_eq!(get_slave_current_state(true, true, Some(4)), 0);
    assert_eq!(get_slave_current_state(true, true, None), SLAVE_STATE_UNKNOWN);
    let states = vec![AL_STATE_OP, 0];
    assert!(is_slave_ready(&states, 0));
    assert!(!is_slave_ready(&states, 1));
    assert!(!is_slave_ready(&states, 2));
}

fn engine(mailbox: bool, watchdog: bool) -> CycleEngine {
    let offsets = one_slave_layout();
    let mailbox_entries = vec![vec!["temperature".to_string()]];
    CycleEngine::new(1, 16, &offsets, &mailbox_entries, mailbox, watchdog, 1000, 1000, 0)
        .expect("layout fits the image")
}

fn up() -> BusStatus {
    BusStatus { link_up: true, al_states: AL_STATE_OP, slaves_responding: 1 }
}

#[test]
fn engine_refuses_a_layout_outside_the_image() {
    let offsets = one_slave_layout();
    let mailbox_entries = vec![vec!["temperature".to_string()]];
    assert!(CycleEngine::new(1, 12, &offsets, &mailbox_entries, true, true, 1000, 1000, 0).is_none());
}

#[test]
fn commands_wait_for_readiness_and_snapshot_matches_sent_image() {
    let mut e = engine(false, false);
    let mut data = vec![0u8; 16];
    let cmds = vec![PendingWrite { range: range(2, 6), bytes: vec![7, 7, 7, 7] }];
    // not ready: nothing is applied, and the snapshot is the image sent
    let snap = e.process_frame(&mut data, 0, &cmds);
    assert_eq!(snap, data);
    assert_eq!(&data[2..6], &[0, 0, 0, 0]);
    // becoming ready publishes every slave as operational
    assert_eq!(e.update_readiness(up(), &vec![Some(AL_STATE_OP)]), Some(vec![AL_STATE_OP]));
    assert!(e.operational);
    assert_eq!(e.update_readiness(up(), &vec![Some(AL_STATE_OP)]), None);
    let snap = e.process_frame(&mut data, 1_000, &cmds);
    assert_eq!(&snap[2..6], &[0, 0, 0, 0]);
    assert_eq!(&data[2..6], &[7, 7, 7, 7]);
    // the next snapshot shows the command
    let snap = e.process_frame(&mut data, 2_000, &vec![]);
    assert_eq!(&snap[2..6], &[7, 7, 7, 7]);
    // link loss drops readiness and publishes per-slave states
    let down = BusStatus { link_up: false, al_states: AL_STATE_OP, slaves_responding: 1 };
    assert_eq!(e.update_readiness(down, &vec![Some(AL_STATE_OP)]), Some(vec![AL_STATE_OP]));
    assert!(!e.operational);
}

#[test]
fn heartbeat_counter_advances_modulo_eight() {
    let mut e = engine(false, true);
    let mut data = vec![0u8; 16];
    for tick in 0..10u64 {
        let before = e.watchdog_counter;
        e.process_frame(&mut data, tick * 1_000, &vec![]);
        assert_eq!(data[1] >> 3, before);
        assert_eq!(e.watchdog_counter, (before + 1) % 8);
    }
}

#[test]
fn mailbox_silence_drops_readiness() {
    let mut e = engine(true, false);
    let mut data = vec![0u8; 16];
    data[12] = 1;
    e.process_frame(&mut data, 0, &vec![]);
    assert_eq!(e.update_readiness(up(), &vec![Some(AL_STATE_OP)]), Some(vec![AL_STATE_OP]));
    data[12] = 0;
    e.process_frame(&mut data, 1_050_000, &vec![]);
    assert!(!e.mailbox_fresh);
    assert_eq!(e.update_readiness(up(), &vec![Some(AL_STATE_OP)]), Some(vec![0]));
    assert!(!e.operational);
    data[12] = 3;
    e.process_frame(&mut data, 1_051_000, &vec![]);
    assert!(e.mailbox_fresh);
    assert_eq!(e.update_readiness(up(), &vec![Some(AL_STATE_OP)]), Some(vec![AL_STATE_OP]));
}
