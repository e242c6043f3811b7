use rt_async_amp::apps::console::{execute, greeting, LineEditor};
use rt_async_amp::apps::elastic::{Elastic, Event, Order, ELASTIC_SPIN_LIMIT, PATH_RACE_CLOSE};
use rt_async_amp::apps::intercom::{
    account, close_window, delay_ticks, handle_non_rpc, has_pending, log_due, note_magic_heal,
    send_notification, step, ticks_to_ns, work_of, DrainAll, Reaction, Ready, RtAsyncRpc,
    WaitReady, Work, ADD, NO_BASE, PING, STATS,
};
use rt_async_amp::apps::intercom_app::{server, EchoService};
use rt_async_amp::apps::ipc_wait::{WaitForMessage, WaitPoll};
use rt_async_amp::apps::litmus::{
    lit_mix_l1, lit_mix_l2, L1Stage, LitAccess, Litmus, ReadMode, L1, L1_DATA, L1_ECHO, L1_NEIGHBOUR,
    L1_POLL, L1_ROUND, L2, L2_PUBLISH, L3, L3_AP_FLAG, L3_DEKKER, L3_RP_FLAG,
};
use rt_async_amp::apps::membench::{
    fresh_deadline, fresh_step, fresh_timeout, postcard_round, Access, Fresh, MemBench, CYCLE_CAL,
    CYCLE_GAPPED, CYCLE_HOT, NOW_GAPPED, POSTCARD_RT, RD_BLK8_SHM, RD_LINE_SHM, RD_STRIDE_SHM,
    TMR_B_SCAN, TMR_CAL, TMR_CLKON, TMR_GAPPED, TMR_HOT, TMR_SETUP,
};
use rt_async_amp::apps::pbmt_probe::{gated, reset, Probe, Store, ACK_MAGIC, ACK_OFF, CNT_OFF, FLAG_OFF};
use rt_async_amp::apps::robot::{
    angle_cmd, angle_to_pulse, arm_steps, be_i16, be_i32, build_frame, config_frame, init_step,
    now_ms, parse_frame, respond, torque_release, Admission, ArmCmd, ArmRing, ArmStep, Chassis,
    Frame, InitStep, Receiving, Wanted, CMD_GET_RPM, CMD_INIT, CMD_STOP, RSP_ACK, RSP_RPM_DATA,
};
use rt_async_amp::apps::rtbench::{
    calibrate_clock, calibrating, cycles_per_op, ns, per_op, plan, RoundTrips, Row, Rows, Spread,
    Target, Wakes, MAX_ROWS,
};
use rt_async_amp::apps::sched_demo::{print_dec, tick, Turn};
use rt_async_amp::apps::stats::{Readings, Stats, D2_SPIN_HIT, HEALS, MSGS, SVC_MAX_NS, SVC_MIN_NS, T_NOW, WINDOWS};
use rt_async_amp::apps::timed::{
    cal_over, gap_plan, hot_plan, kind_of, pause_over, CalRun, ClockAccess, ClockOn, GapPlan,
    GapRun, HotPlan, HotRun, Kind, Probe as Reading, ScanAccess, ScanRun, TimerAccess, TimerSetup,
};
use rt_async_amp::apps::uart_wait::{RxRing, WaitForByte};
use rt_async_amp::apps::waking::{WakeEvent, WakeOrder, Waking};
use rt_async_amp::apps::watchdog::Watchdog;
use rt_async_amp::channel::ChannelId;
use rt_async_amp::client::{RequestIds, RpcClient};
use rt_async_amp::descriptor::parse;
use rt_async_amp::message::Message;
use rt_async_amp::server::{HandledKind, ProcessResult, RpcHandler, RpcServer};
use rt_async_amp::shm::SharedMemory;
use rt_async_amp::text::{parse_i32, split_first_word, trim};

fn window() -> SharedMemory<3> {
    let mut shm = SharedMemory::<3>::new();
    shm.init();
    shm
}

fn handler(probe: bool) -> RtAsyncRpc {
    RtAsyncRpc {
        stats: Stats::new(probe),
        from: Readings { resp_fails: 1, now: 77, freq_hz: 24_000_000, stamps: [1, 2, 3, 4] },
        path: 2,
        t_isr: 10,
        t_drain: 11,
        t_sched: 12,
        t_seen: 13,
        marks: [20, 21, 22, 23],
        bench: (500, 9),
    }
}

#[test]
fn words_are_split() {
    assert_eq!(split_first_word(b"  add 1 2 "), (&b"add"[..], &b"1 2 "[..]));
    assert_eq!(split_first_word(b"help"), (&b"help"[..], &b""[..]));
    assert_eq!(split_first_word(b""), (&b""[..], &b""[..]));
    assert_eq!(trim(b" \t x y \r\n"), b"x y");
}

#[test]
fn numbers_are_read() {
    assert_eq!(parse_i32(b"42"), Some(42));
    assert_eq!(parse_i32(b" -7 "), Some(-7));
    assert_eq!(parse_i32(b"+2147483647"), Some(2_147_483_647));
    assert_eq!(parse_i32(b"2147483648"), None);
    assert_eq!(parse_i32(b"-2147483648"), None);
    assert_eq!(parse_i32(b"-"), None);
    assert_eq!(parse_i32(b""), None);
    assert_eq!(parse_i32(b"1x"), None);
}

#[test]
fn commands_print_their_answers() {
    assert_eq!(execute(b"echo  hi there"), b"hi there\r\n");
    assert_eq!(execute(b"add 2147483647 1"), b"2147483647 + 1 = -2147483648\r\n");
    assert_eq!(execute(b"add x 1"), b"error: invalid first operand\r\n");
    assert_eq!(execute(b"add 1"), b"error: invalid second operand\r\n");
    assert_eq!(execute(b"clear"), b"\x1b[2J\x1b[H");
    assert_eq!(execute(b"nope now"), b"unknown command: nope\r\n");
    assert_eq!(execute(b"   "), b"");
    assert!(execute(b"help").starts_with(b"Commands:\r\n  echo <text>"));
    assert!(greeting().contains("rt-async console ready"));
}

#[test]
fn a_line_is_edited_and_run() {
    let mut ed = LineEditor::new();
    assert_eq!(ed.key(0x08), b"");
    assert_eq!(ed.key(b'e'), b"e");
    assert_eq!(ed.key(b'x'), b"x");
    assert_eq!(ed.key(0x7f), b"\x08 \x08");
    for b in b"cho a" {
        ed.key(*b);
    }
    assert_eq!(ed.key(13), b"\r\na\r\n> ");
    assert_eq!(ed.key(10), b"\r\n> ");
    ed.key(b'a');
    ed.key(b'b');
    assert_eq!(ed.key(0x15), b"\x08 \x08\x08 \x08");
    ed.key(b'q');
    assert_eq!(ed.key(3), b"^C\r\n> ");
    assert_eq!(ed.key(0x80), b"");
    for _ in 0..127 {
        assert_eq!(ed.key(b'z'), b"z");
    }
    assert_eq!(ed.key(b'z'), b"");
}

#[test]
fn two_tasks_print_in_turn() {
    assert_eq!(tick(Turn::High, 1), b"H");
    assert_eq!(tick(Turn::Low, 40), b"L [low tick=40]\n");
    assert_eq!(tick(Turn::High, 20), b"H [high tick=20]\n");
    assert_eq!(print_dec(0), b"0");
    assert_eq!(print_dec(4_294_967_295), b"4294967295");
}

#[test]
fn a_flag_is_answered_and_cleared() {
    assert!(gated(71_999_999, 24_000_000));
    assert!(!gated(72_000_000, 24_000_000));
    assert_eq!(reset().len(), 3);
    let mut p = Probe::new(100, 24_000_000);
    assert_eq!(p.period, 2400);
    assert_eq!(p.step(5), vec![Store { off: CNT_OFF, value: 1 }, Store { off: CNT_OFF + 8, value: 5 }]);
    let flag = 0x5042_4d54_0000_0007;
    assert_eq!(
        p.reply(flag),
        vec![
            Store { off: ACK_OFF, value: ACK_MAGIC },
            Store { off: ACK_OFF + 8, value: flag },
            Store { off: FLAG_OFF, value: 0 },
        ]
    );
    assert_eq!(p.reply(7), vec![]);
    assert_eq!(p.due(), 2500);
    assert!(!p.log_due(240_000_099));
    assert!(p.log_due(240_000_100));
    assert!(!p.log_due(240_000_200));
}

#[test]
fn a_waking_looks_once_more_before_it_sleeps() {
    let mut e = Elastic::begin(9);
    e.advance(Event::Drained(2));
    assert_eq!(e.order, Order::Drain);
    e.advance(Event::Drained(0));
    e.advance(Event::Time(100));
    for _ in 0..ELASTIC_SPIN_LIMIT {
        assert_eq!(e.order, Order::Look);
        e.advance(Event::Waiting(false));
    }
    assert_eq!(e.order, Order::EndWindow);
    e.advance(Event::Time(200));
    assert_eq!(e.order, Order::ReadDoorbell);
    e.advance(Event::Time(10));
    assert!(e.redundant);
    assert_eq!(e.order, Order::ClearBusy);
    e.advance(Event::Done);
    assert_eq!(e.order, Order::LastLook);
    e.advance(Event::Waiting(true));
    assert_eq!((e.order, e.path), (Order::LastDrain, PATH_RACE_CLOSE));
    e.advance(Event::Drained(1));
    assert_eq!((e.order, e.total), (Order::Sleep, 3));

    let mut stats = Stats::new(false);
    close_window(&mut stats, &e);
    let from = Readings { resp_fails: 0, now: 0, freq_hz: 0, stamps: [0; 4] };
    assert_eq!(stats.get(WINDOWS, &from), 1);
}

#[test]
fn counters_are_kept() {
    let from = Readings { resp_fails: 5, now: 77, freq_hz: 24, stamps: [1, 2, 3, 4] };
    let mut stats = Stats::new(true);
    assert_eq!(stats.count(), 24);
    account(&mut stats, 2, 0, 24);
    account(&mut stats, 2, 0, 240);
    assert_eq!(stats.get(MSGS, &from), 2);
    assert_eq!(stats.get(D2_SPIN_HIT, &from), 2);
    assert_eq!(stats.get(SVC_MIN_NS, &from), 1000);
    assert_eq!(stats.get(SVC_MAX_NS, &from), 10_000);
    assert_eq!(stats.get(T_NOW, &from), 77);
    note_magic_heal(&mut stats);
    assert_eq!(stats.get(HEALS, &from), 1);
    assert_eq!(ticks_to_ns(24), 1000);
    assert_eq!(delay_ticks(10, 24_000_000), 240);
    assert!(log_due(8192) && !log_due(1));
}

#[test]
fn the_service_answers() {
    let mut shm = window();
    let mut ids = RequestIds::new();
    let mut srv = RpcServer::new(0);
    let mut client = RpcClient::new(0);
    let mut h = handler(true);
    let sum = client.call(&mut shm, &mut ids, ADD, &(i32::MAX, 1i32)).unwrap();
    let pong = client.call(&mut shm, &mut ids, PING, &5u64).unwrap();
    let stat = client.call(&mut shm, &mut ids, STATS, &T_NOW).unwrap();
    let bench = client.call(&mut shm, &mut ids, 5, &(0u32, 1u32)).unwrap();
    for _ in 0..4 {
        assert!(matches!(step(&mut srv, &mut shm, &mut h, false), Some(Reaction::Notify)));
    }
    assert!(step(&mut srv, &mut shm, &mut h, false).is_none());
    client.poll_responses(&mut shm);
    assert_eq!(client.recv_for::<i32>(sum.rid), Ok(Some(i32::MIN)));
    let (val, path, isr, drain, sched, seen, m0, m1, m2, m3) = client
        .recv_for::<(u64, u8, u64, u64, u64, u64, u64, u64, u64, u64)>(pong.rid)
        .unwrap()
        .unwrap();
    assert_eq!((val, path, isr, drain, sched, seen), (5, 2, 10, 11, 12, 13));
    assert_eq!((m0, m1, m2, m3), (20, 21, 22, 23));
    assert_eq!(client.recv_for::<u64>(stat.rid), Ok(Some(77)));
    assert_eq!(client.recv_for::<(u64, u64)>(bench.rid), Ok(Some((500, 9))));
    assert_eq!(parse(&h.descriptor()).unwrap().method_count(), 7);
    assert_eq!(parse(&handler(false).descriptor()).unwrap().method_count(), 5);
}

#[test]
fn the_other_service_answers() {
    let mut shm = window();
    let mut ids = RequestIds::new();
    let mut srv = server(0);
    let mut client = RpcClient::new(0);
    let t = client.call_poll(&mut shm, &mut ids, 1, &(2i32, 3i32)).unwrap();
    client.send(&mut shm, &mut ids, 2, &9u32).unwrap();
    assert!(matches!(
        srv.process_one(&mut shm, &mut EchoService),
        ProcessResult::Handled(HandledKind::Quiet)
    ));
    assert!(matches!(
        srv.process_one(&mut shm, &mut EchoService),
        ProcessResult::Handled(HandledKind::OneWay)
    ));
    client.poll_responses(&mut shm);
    assert_eq!(client.recv_for::<i32>(t.rid), Ok(Some(5)));
    assert_eq!(parse(&EchoService.descriptor()).unwrap().method_count(), 3);
}

#[test]
fn work_is_known_before_a_request_is_handled() {
    let delay = Message::request(1, 2, &100u32).unwrap();
    assert!(matches!(work_of(&delay, false), Work::Delay(100)));
    let bench = Message::request(1, 5, &(3u32, 4u32)).unwrap();
    assert!(matches!(work_of(&bench, true), Work::Membench(3, 4)));
    assert!(!matches!(work_of(&bench, false), Work::Membench(_, _)));
    let litmus = Message::request(1, 6, &(1u32, 2u32)).unwrap();
    assert!(matches!(work_of(&litmus, true), Work::Litmus(1, 2)));
}

#[test]
fn a_notification_is_sent_back() {
    let mut shm = window();
    let mut seen = 4095;
    let r = handle_non_rpc(&mut shm, &mut seen, &Message::notification(8));
    assert!(r.notify);
    assert_eq!(r.log, Some((4096, 8)));
    assert_eq!(
        shm.receiver(ChannelId::new(1)).unwrap().try_recv(),
        Some(Message::notification(8))
    );
    let r = handle_non_rpc(&mut shm, &mut seen, &Message::data(b"abc"));
    assert_eq!((r.notify, r.data, seen), (false, Some(255), 4096));
    assert!(send_notification(&mut shm, 3));
    assert!(!has_pending(0, &shm));
    shm.sender(ChannelId::new(0)).unwrap().try_send(&Message::notification(1)).unwrap();
    assert!(has_pending(0, &shm));
    assert!(!has_pending(NO_BASE, &shm));
}

#[test]
fn waiting_for_the_window_ends() {
    let w = WaitReady { start: 100, fallback_ms: 10 };
    assert_eq!(w.poll(true, 100, 24_000_000), Ready::Online);
    assert_eq!(w.poll(false, 100 + 239_999, 24_000_000), Ready::Again);
    assert_eq!(w.poll(false, 100 + 240_000, 24_000_000), Ready::Fallback);
    let mut d = DrainAll::begin();
    d.advance(true);
    d.advance(false);
    assert_eq!(d.urgent, Some(false));
    d.advance(false);
    assert_eq!((d.urgent, d.count), (None, 1));
}

#[test]
fn the_watchdog_heals_eight_times() {
    let mut w = Watchdog::new();
    let mut heals = 0;
    for i in 1..=20u64 {
        let v = w.tick(i % 2 == 0);
        assert_eq!(v.alive, i % 10 == 0);
        heals += v.heal as u32;
    }
    assert_eq!(heals, 8);
}

#[test]
fn waiters_are_woken() {
    let mut w = WaitForMessage::new();
    assert_eq!(w.poll(true, false), WaitPoll::Ready);
    assert!(!w.notify_from_isr(true));
    assert_eq!(w.poll(false, false), WaitPoll::Pending(false));
    assert!(!w.notify_from_isr(false));
    assert!(w.notify_from_isr(true));

    let mut rx = RxRing::new();
    assert!(!rx.has_byte());
    assert_eq!(rx.poll(), WaitForByte::Pending(false));
    assert_eq!(rx.poll_again(), None);
    rx.push_byte(7);
    assert!(rx.notify_from_isr());
    assert_eq!(rx.rx_len(), 1);
    assert_eq!(rx.poll(), WaitForByte::Ready(7));
    assert_eq!(rx.pop_byte(), None);
}

#[test]
fn frames_are_built_and_found() {
    let f = build_frame(0x13, &[1, 2, 3]);
    assert_eq!(f, vec![0xAA, 0x55, 0x13, 3, 1, 2, 3, 0x13 ^ 3 ^ 1 ^ 2 ^ 3]);
    let mut buf = vec![0x00, 0xAA, 0x01];
    buf.extend_from_slice(&f);
    buf.push(0xAA);
    let found = parse_frame(&mut buf).unwrap();
    assert_eq!((found.cmd, found.payload), (0x13, vec![1, 2, 3]));
    assert_eq!(buf, vec![0xAA]);
    let mut bad = f.clone();
    bad[7] ^= 1;
    assert!(parse_frame(&mut bad).is_none());
    assert_eq!(config_frame(0x0102, 0x0304)[..8], [0xAA, 0x55, 2, 4, 1, 2, 3, 4]);
    assert_eq!(be_i16(&[0xff, 0xfe], 0), -2);
    assert_eq!(be_i32(&[0, 0x80, 0, 0, 1], 1), i32::MIN + 1);
}

#[test]
fn servo_lines_are_written() {
    assert_eq!(angle_to_pulse(0), 500);
    assert_eq!(angle_to_pulse(135), 1500);
    assert_eq!(angle_to_pulse(400), 2500);
    assert_eq!(angle_cmd(2, 90), b"#002P1166T1000!");
    assert_eq!(torque_release(), b"#255PULK");
    let steps = arm_steps(ArmCmd::Release { rid: 6 });
    assert_eq!(steps.len(), 3);
    assert!(matches!(steps[1], ArmStep::Sleep(500)));
    assert!(matches!(steps[2], ArmStep::Respond(6, 0)));
    assert_eq!(arm_steps(ArmCmd::Grab { rid: 6 }).len(), 10);
}

#[test]
fn the_chassis_keeps_its_state() {
    let mut c = Chassis::new();
    assert!(c.take_motion().is_none());
    c.chassis_set_speed(200, -5);
    c.chassis_stop(1);
    let stop = c.take_motion().unwrap();
    assert_eq!(stop[2..5], [CMD_STOP, 1, 2]);
    let speeds = c.take_motion().unwrap();
    assert_eq!(speeds[2..8], [0x13, 4, 0, 100, 0xff, 0xfb]);
    assert!(c.take_motion().is_none());
    let mut shm = window();
    assert_eq!(c.chassis_init(&mut shm, 9, 100, 200), Admission::Accepted);
    assert!(shm.receiver(ChannelId::new(1)).unwrap().try_recv().is_none());
    assert_eq!(c.chassis_init(&mut shm, 10, 1, 1), Admission::Refused { doorbell: true });
    let m = shm.receiver(ChannelId::new(1)).unwrap().try_recv().unwrap();
    assert_eq!(m.as_response::<u32>(), Some((10, u32::MAX)));
    let init = c.take_init().unwrap();
    assert_eq!((init.rid, init.ppr, init.pwm), (9, 100, 200));
    assert!(!c.tick());
    c.init_done(true);
    for _ in 0..8 {
        assert!(!c.tick());
    }
    assert!(c.tick());
    let enc = Some(Frame { cmd: 0x91, payload: vec![0, 0, 0, 1, 0xff, 0xff, 0xff, 0xff] });
    let rpm = Some(Frame { cmd: RSP_RPM_DATA, payload: vec![1, 0, 50] });
    c.telemetry(&enc, &rpm, &None, 33);
    assert_eq!(c.chassis_get(4), (4, 1, 50, 0, 1, -1, 0, 33));
    c.telemetry(&None, &None, &None, 34);
    assert_eq!(c.chassis_get(7), (7, 1, 50, 0, 1, -1, 2, 33));
    c.telemetry(&enc, &None, &None, 35);
    assert_eq!((c.err, c.last_ms), (3, 33));
    c.telemetry(&enc, &rpm, &None, 36);
    assert_eq!((c.err, c.last_ms), (3, 36));
    assert_eq!(init_step(InitStep::Start, Some(RSP_ACK)), InitStep::Configure);
    assert_eq!(init_step(InitStep::Configure, None), InitStep::Done(false));
    assert_eq!(now_ms(48_000), 2);
    assert_eq!(build_frame(CMD_INIT, &[])[2], 1);
    assert_eq!(build_frame(CMD_GET_RPM, &[])[2], 0x20);
}

#[test]
fn the_arm_queue_refuses_what_does_not_fit() {
    let mut r = ArmRing::new();
    let mut shm = window();
    for i in 0..8u64 {
        assert_eq!(r.arm_grab(&mut shm, i, 0), Admission::Accepted);
    }
    assert_eq!(r.arm_dropped(), 0);
    assert!(shm.receiver(ChannelId::new(1)).unwrap().try_recv().is_none());
    assert_eq!(r.arm_grab(&mut shm, 8, 1), Admission::Refused { doorbell: true });
    let m = shm.receiver(ChannelId::new(1)).unwrap().try_recv().unwrap();
    assert_eq!(m.as_response::<u32>(), Some((8, u32::MAX)));
    assert_eq!(r.arm_dropped(), 1);
    assert_eq!(r.pop(), Some(ArmCmd::Grab { rid: 0 }));
    r.arm_set_angle(1, 2);
    assert_eq!(r.arm_dropped(), 1);
    r.arm_torque(1);
    assert_eq!(r.arm_dropped(), 2);
    assert_eq!(r.arm_release(&mut shm, 99, 0), Admission::Refused { doorbell: true });
    let m = shm.receiver(ChannelId::new(1)).unwrap().try_recv().unwrap();
    assert_eq!(m.as_response::<u32>(), Some((99, u32::MAX)));
    assert_eq!(r.arm_dropped(), 3);
    for i in 0..127 {
        shm.sender(ChannelId::new(1)).unwrap().try_send(&Message::notification(i)).unwrap();
    }
    assert_eq!(r.arm_release(&mut shm, 100, 0), Admission::Refused { doorbell: false });
    let mut shm = window();
    assert!(respond(&mut shm, 5, 7));
    let m = shm.receiver(ChannelId::new(1)).unwrap().try_recv().unwrap();
    assert_eq!(m.as_response::<u32>(), Some((5, 7)));
}

#[test]
fn a_measurement_runs_its_rounds() {
    let mut b = MemBench::begin(RD_LINE_SHM, 3);
    let mut n = 0;
    while let Some(a) = b.next() {
        assert_eq!(a, Access::ReadShm(0));
        b.feed(5);
        n += 1;
    }
    assert_eq!(n, 3);
    assert_eq!(b.finish(0, 24), (1000, 15));

    let mut b = MemBench::begin(RD_STRIDE_SHM, 512);
    let mut offs = Vec::new();
    while let Some(Access::ReadShm(off)) = b.next() {
        offs.push(off);
        b.feed(0);
    }
    assert_eq!(offs, vec![0, 512, 1024, 1536]);

    let b = MemBench::begin(99, 3);
    assert_eq!(b.next(), None);
    assert_eq!(b.finish(0, 24), (0, 0));
    assert_eq!(MemBench::begin(POSTCARD_RT, 1).next(), Some(Access::Postcard(0)));
    assert_eq!(postcard_round(3), 6);

    let mut b = MemBench::begin(RD_BLK8_SHM, 1);
    let mut offs = Vec::new();
    while let Some(Access::ReadShm(off)) = b.next() {
        offs.push(off);
        b.feed(1);
    }
    assert_eq!(offs, (0..32u64).map(|j| 8 * j).collect::<Vec<_>>());
    assert_eq!(b.finish(0, 24), (1000, 32));
}

#[test]
fn a_fresh_message_is_waited_for() {
    assert_eq!(fresh_deadline(0, 0, 24_000), 4800);
    assert_eq!(fresh_deadline(0, 5000, 24_000), 24_000);
    assert_eq!(fresh_step(true, 0, 24, 0, 9), Fresh::Hit(1000));
    assert_eq!(fresh_step(false, 0, 0, 10, 9), Fresh::TimedOut);
    assert_eq!(fresh_step(false, 0, 0, 9, 9), Fresh::Again);
    assert_eq!(fresh_timeout(3, 4), (0, 0x4_0000_0003));
}

#[test]
fn every_measurement_is_carried_out_in_its_way() {
    assert_eq!(kind_of(0), Kind::Plain);
    assert_eq!(kind_of(28), Kind::Plain);
    assert_eq!(kind_of(29), Kind::Fresh);
    assert_eq!(kind_of(30), Kind::Plain);
    for op in [NOW_GAPPED, CYCLE_GAPPED, TMR_GAPPED] {
        assert_eq!(kind_of(op), Kind::Gapped);
    }
    for op in [CYCLE_HOT, TMR_HOT] {
        assert_eq!(kind_of(op), Kind::Hot);
    }
    for op in [CYCLE_CAL, TMR_CAL] {
        assert_eq!(kind_of(op), Kind::Calibration);
    }
    assert_eq!(kind_of(TMR_SETUP), Kind::Setup);
    assert_eq!(kind_of(TMR_B_SCAN), Kind::Scan);
    assert_eq!(kind_of(TMR_CLKON), Kind::ClockOn);
    assert_eq!(kind_of(41), Kind::Unknown);
}

#[test]
fn pauses_are_measured_from_before_them() {
    let plan = gap_plan(NOW_GAPPED, 0, 24_000_000);
    assert_eq!(plan, GapPlan { op: NOW_GAPPED, rounds: 200, gap: 480 });
    assert_eq!(gap_plan(CYCLE_GAPPED, 0, 24_000_000).rounds, 200);
    assert_eq!(gap_plan(TMR_GAPPED, 0, 24_000_000).rounds, 64);
    assert_eq!(gap_plan(TMR_GAPPED, 7, 24_000_000).rounds, 7);

    let mut run = GapRun::begin(gap_plan(NOW_GAPPED, 1, 24_000_000));
    for t in [100, 101, 579, 580, 604] {
        assert_eq!(run.due(), Some(Reading::Clock));
        run.advance(t);
    }
    assert_eq!((run.due(), run.total), (None, 504));
    assert_eq!(run.finish(), (21_000, 20_000));

    let mut run = GapRun::begin(gap_plan(TMR_GAPPED, 1, 24_000_000));
    run.advance(0);
    run.advance(480);
    assert_eq!(run.due(), Some(Reading::Counter));
    run.advance(77);
    assert_eq!(run.due(), Some(Reading::Clock));
    run.advance(528);
    assert_eq!(run.finish(), (22_000, 20_000));

    let mut run = GapRun::begin(gap_plan(CYCLE_GAPPED, 1, 24_000_000));
    assert_eq!(run.due(), Some(Reading::Cycles));
    run.advance(u64::MAX);
    assert_eq!(run.due(), Some(Reading::Spin(12_000)));
    run.advance(0);
    assert_eq!(run.due(), Some(Reading::Cycles));
    run.advance(9);
    assert_eq!((run.due(), run.finish()), (None, (10, 12_000)));
}

#[test]
fn readings_without_pauses_are_counted() {
    assert_eq!(hot_plan(CYCLE_HOT, 5), HotPlan { op: CYCLE_HOT, reads: 1000, told: 1000 });
    assert_eq!(hot_plan(TMR_HOT, 0), HotPlan { op: TMR_HOT, reads: 4000, told: 4000 });
    let mut run = HotRun::begin(hot_plan(TMR_HOT, 2));
    let mut readings = Vec::new();
    for v in [24, 1, 2, 72] {
        readings.push(run.due().unwrap());
        run.advance(v);
    }
    assert_eq!(readings, vec![Reading::Clock, Reading::Counter, Reading::Counter, Reading::Clock]);
    assert_eq!((run.due(), run.finish()), (None, (2000, 4000)));
    let mut run = HotRun::begin(hot_plan(CYCLE_HOT, 0));
    for v in 0..1002u64 {
        assert_eq!(run.due(), Some(Reading::Cycles));
        run.advance(3 * v);
    }
    assert_eq!((run.due(), run.finish()), (None, (3003, 1000)));
}

#[test]
fn counters_are_held_against_the_clock() {
    assert!(!cal_over(5, 120_004) && cal_over(5, 120_005));
    for (op, counter) in [(CYCLE_CAL, Reading::Cycles), (TMR_CAL, Reading::Counter)] {
        let mut run = CalRun::begin(op);
        run.advance(10);
        assert_eq!(run.due(), Some(counter));
        run.advance(5);
        run.advance(120_009);
        assert_eq!(run.due(), Some(Reading::Clock));
        run.advance(120_010);
        assert_eq!(run.due(), Some(counter));
        run.advance(4);
        run.advance(120_012);
        assert_eq!((run.due(), run.finish()), (None, (u64::MAX, 120_002)));
    }
}

#[test]
fn another_block_of_counters_is_looked_at() {
    assert!(!pause_over(1, 24_000) && pause_over(1, 24_001));
    let mut run = ScanRun::begin();
    let mut order = Vec::new();
    for v in [1, 2, 3, 0, 5] {
        order.push(run.due().unwrap());
        run.advance(v);
    }
    assert_eq!(
        order,
        vec![
            ScanAccess::Read(0xd401_4090),
            ScanAccess::Read(0xd401_4000),
            ScanAccess::Read(0xd401_4094),
            ScanAccess::Pause,
            ScanAccess::Read(0xd401_4090),
        ]
    );
    assert_eq!((run.due(), run.finish()), (None, (0x5_0000_0001, 0x2_0000_0003)));
}

/// Switches the clock on where the enable bit takes after `deaf` attempts.
fn switch_on(deaf: u32) -> (ClockOn, Vec<u32>) {
    let mut run = ClockOn::begin();
    let mut gates = Vec::new();
    let mut attempts = 0;
    let mut counts = vec![200u32, 100];
    while let Some(access) = run.due() {
        let v = match access {
            ClockAccess::ReadGate => 0x78,
            ClockAccess::WriteGate(v) => {
                gates.push(v);
                0
            }
            ClockAccess::Timer(TimerAccess::WriteEnable(v)) => {
                assert_eq!(v, 3);
                attempts += 1;
                0
            }
            ClockAccess::Timer(TimerAccess::VerifyEnable | TimerAccess::ReadResult) => {
                if attempts > deaf { 3 } else { 1 }
            }
            ClockAccess::Timer(TimerAccess::ReadEnable) => 1,
            ClockAccess::Timer(_) | ClockAccess::Pause => 0,
            ClockAccess::ReadCounter => counts.pop().unwrap(),
        };
        run.advance(v);
    }
    (run, gates)
}

#[test]
fn the_clock_is_switched_on_in_two_ways() {
    let (run, gates) = switch_on(0);
    assert_eq!(gates, vec![0x78, 0x7f]);
    assert_eq!((run.retries, run.second, run.cer), (0, false, 3));
    assert_eq!(run.finish(), (0x78, 0x3_0000_0064));
    let (run, gates) = switch_on(9);
    assert_eq!(gates, vec![0x78, 0x7f, 0x7b]);
    assert_eq!((run.retries, run.second, run.cer), (9, true, 3));
    let (run, gates) = switch_on(100);
    assert_eq!(gates, vec![0x78, 0x7f, 0x7b]);
    assert_eq!((run.retries, run.second, run.cer), (16, true, 1));
    let mut t = TimerSetup::begin();
    assert_eq!(t.due, Some(TimerAccess::ReadMode));
    t.advance(0);
    assert_eq!(t.due, Some(TimerAccess::WriteMode(2)));
}

#[test]
fn ordering_experiments_judge_what_they_see() {
    assert_eq!(lit_mix_l1(0), 0xA5A5_5A5A_5A5A_5A5A);
    assert_eq!(lit_mix_l2(2), 5_308_871_522);
    let mut l = L1::begin(0x1_0005, 1000);
    assert_eq!((l.mode, l.ticks), (ReadMode::Fenced, 5));
    assert!(l.can_take(100) && !l.can_take(u64::MAX));
    // Set-up, an old round, a good one, one with wrong data, one that moves on, the end.
    let gives = [
        100, 4, 0, 4, 101, 0, 5, lit_mix_l1(5), 5, 0, 102, 0, 6, 0, 6, 0, 103, 0, 7, 0, 8, 8, 0, 8,
        105,
    ];
    let mut log = Vec::new();
    for v in gives {
        log.push(l.due().unwrap());
        l.advance(v);
    }
    assert_eq!(
        &log[..11],
        &[
            LitAccess::Clock,
            LitAccess::Read(L1_ROUND),
            LitAccess::Fence,
            LitAccess::Read(L1_ROUND),
            LitAccess::Clock,
            LitAccess::Fence,
            LitAccess::Read(L1_ROUND),
            LitAccess::Read(L1_DATA),
            LitAccess::Read(L1_ROUND),
            LitAccess::Write(L1_ECHO, 5),
            LitAccess::Clock,
        ]
    );
    // The round that moved on is read once more, and the clock is not looked at.
    assert_eq!(log[21], LitAccess::Read(L1_ROUND));
    assert_eq!(log[22], LitAccess::Fence);
    assert_eq!((l.rounds, l.viol, l.last, l.due()), (2, 1, 8, None));

    let mut n = L1::begin(0x2_0000, 1000);
    assert_eq!((n.mode, n.ticks), (ReadMode::Neighbour, 100));
    n.advance(0);
    n.advance(0);
    assert_eq!(n.due(), Some(LitAccess::Read(L1_NEIGHBOUR)));
    let mut plain = L1::begin(1, 1000);
    plain.advance(0);
    plain.advance(0);
    assert_eq!(plain.stage, L1Stage::Round);

    let mut p = L2::begin(0x1_0002, 24_000);
    assert_eq!((p.rounds, p.proper, p.pace), (2, true, 12));
    assert_eq!(p.writes(1), ((0x28, 2_654_435_761), (0x20, 1)));
    let mut log = Vec::new();
    for v in [0, 0, 0, 100, 111, 112] {
        log.push(p.due().unwrap());
        p.advance(v);
    }
    assert_eq!(
        log,
        vec![
            LitAccess::Write(0x28, 0),
            LitAccess::Write(0x20, 0),
            LitAccess::Bell,
            LitAccess::Clock,
            LitAccess::Clock,
            LitAccess::Clock,
        ]
    );
    assert_eq!((p.k, p.due()), (1, Some(LitAccess::Write(0x28, 2_654_435_761))));
    assert_eq!(L2::begin(0, 0).writes(1).0, (0x20, 1));

    let mut d = L3::begin(2);
    assert_eq!(d.due(), Some(LitAccess::Read(L3_AP_FLAG)));
    d.advance(0);
    assert_eq!(d.due(), Some(LitAccess::Write(L3_RP_FLAG, 1)));
    for v in [0, 0, 0, 1] {
        d.advance(v);
    }
    assert_eq!((d.due(), d.stale), (None, 1));
    assert_eq!(L3::begin(0).rounds, 1000);
    assert_eq!(L3::begin(u32::MAX).rounds, 100_000);
}

#[test]
fn an_ordering_experiment_is_chosen_by_its_number() {
    assert!(matches!(Litmus::begin(L1_POLL, 1, 1000), Litmus::Poll(_)));
    assert!(matches!(Litmus::begin(L2_PUBLISH, 1, 1000), Litmus::Publish(_)));
    let mut d = Litmus::begin(L3_DEKKER, 3, 1000);
    let mut flag = 0;
    while let Some(access) = d.due() {
        let v = match access {
            LitAccess::Read(_) => flag,
            LitAccess::Write(_, v) => {
                flag = v / 2;
                0
            }
            _ => 0,
        };
        assert!(d.can_take(v));
        d.advance(v);
    }
    assert_eq!(d.outcome(), (2, 3));
    let none = Litmus::begin(9, 1, 1000);
    assert_eq!((none.due(), none.outcome()), (None, (0, 0)));
}

#[test]
fn a_frame_is_waited_for() {
    let mut w = Receiving::begin(10, 5);
    assert_eq!(w.wanted(), Wanted::Time);
    w.time(14);
    assert_eq!(w.wanted(), Wanted::Byte);
    let frame = build_frame(RSP_ACK, &[3]);
    for b in &frame[..3] {
        w.byte(Some(*b));
    }
    w.byte(None);
    assert_eq!(w.wanted(), Wanted::Time);
    w.time(14);
    for b in &frame[3..] {
        w.byte(Some(*b));
    }
    w.byte(None);
    assert_eq!(w.wanted(), Wanted::Nothing);
    let f = w.frame().unwrap();
    assert_eq!((f.cmd, f.payload), (RSP_ACK, vec![3]));

    let mut late = Receiving::begin(10, 5);
    late.time(15);
    assert_eq!(late.wanted(), Wanted::Nothing);
    assert!(late.frame().is_none());

    let mut noise = Receiving::begin(0, 5);
    noise.time(0);
    for _ in 0..32 {
        noise.byte(Some(0));
    }
    assert_eq!(noise.wanted(), Wanted::Time);
}

#[test]
fn a_waking_processes_what_waits_and_counts_it() {
    let mut shm = window();
    let mut ids = RequestIds::new();
    let mut srv = RpcServer::new(0);
    let client = RpcClient::new(0);
    let mut h = handler(false);
    client.call(&mut shm, &mut ids, ADD, &(1i32, 2i32)).unwrap();
    client.call(&mut shm, &mut ids, ADD, &(3i32, 4i32)).unwrap();
    client.urgent(&mut shm, &mut ids, 2, &5u32).unwrap();
    shm.set_busy();
    let mut w = Waking::begin(7);
    let mut order = Vec::new();
    let mut late = false;
    loop {
        assert_eq!(
            shm.is_busy(),
            !matches!(w.elastic.order, Order::LastLook | Order::LastDrain | Order::Sleep)
        );
        let event = match w.order() {
            WakeOrder::Process(urgent) => {
                let found = step(&mut srv, &mut shm, &mut h, urgent).is_some();
                if found {
                    order.push(urgent);
                    account(&mut h.stats, w.elastic.path, 0, 24);
                }
                WakeEvent::Processed(found)
            }
            WakeOrder::ReadClock => WakeEvent::Time(0),
            WakeOrder::Look(_) => WakeEvent::Waiting(srv.has_pending(&shm) || srv.has_urgent(&shm)),
            WakeOrder::ReadDoorbell => WakeEvent::Time(7),
            WakeOrder::ClearBusy => {
                close_window(&mut h.stats, &w.elastic);
                shm.clear_busy();
                if !late {
                    late = true;
                    client.call(&mut shm, &mut ids, ADD, &(5i32, 6i32)).unwrap();
                }
                WakeEvent::Done
            }
            WakeOrder::Sleep => break,
        };
        assert!(w.can_take(event));
        w.advance(event);
    }
    assert_eq!(order, vec![true, false, false, false]);
    assert_eq!(w.elastic.total, 4);
    assert!(!srv.has_pending(&shm) && !srv.has_urgent(&shm));
    let counts: Vec<u64> = (0..5).map(|i| h.stats.get(i, &h.from)).collect();
    assert_eq!(counts, vec![4, 3, 0, 0, 1]);
}

#[test]
fn words_may_be_parted_by_any_white_space() {
    let line = "\u{3000}add\u{a0}1\u{2028}2\u{85}".as_bytes();
    assert_eq!(trim(line), "add\u{a0}1\u{2028}2".as_bytes());
    assert_eq!(split_first_word(line).0, b"add");
    assert_eq!(split_first_word(split_first_word(line).1).0, b"1");
    assert_eq!(parse_i32("\u{2009}-5\u{1680}".as_bytes()), Some(-5));
    assert_eq!(parse_i32("\u{200b}5".as_bytes()), None);
}

#[test]
fn the_benchmark_keeps_its_results() {
    let items = plan();
    assert_eq!(items.len(), 52);
    assert_eq!(items[0].target.address(0), 0xe400_bff8);
    assert_eq!(Target::Window.address(0), 0xc081_8700);
    assert_eq!(items.iter().filter(|i| i.live).count(), 4);
    let stride = items.iter().find(|i| i.probe.sweep() == Some((512, 0x800))).unwrap();
    assert_eq!(stride.probe.offset(3), Some(1536));
    assert_eq!(stride.probe.offset(4), None);
    assert_eq!(items[0].probe.offset(0), None);
    assert_eq!(per_op(0, 24_000, 24_000_000, 1000), 1000);
    assert_eq!(per_op(5, 0, 24_000_000, 1000), 0);
    assert_eq!(cycles_per_op(100, 350, 10), 25);
    let mut rows = Rows::new();
    for i in 0..60 {
        rows.record(Row { item: i, ns: 1, cyc: 2 });
    }
    assert_eq!(rows.len(), MAX_ROWS);
    let mut rows = Rows::new();
    rows.timeit(3, 1000, 0, 24_000, 0, 5000, 24_000_000);
    assert_eq!(rows.get(0), Row { item: 3, ns: 1000, cyc: 5 });
    assert_eq!(calibrate_clock(0, 49_152_000, 0, 2_400_000, 24_000_000), (491_520_000, true));
    assert!(!calibrate_clock(5, 5, 0, 1, 24_000_000).1);
    assert!(calibrating(2_399_999, 24_000_000) && !calibrating(2_400_000, 24_000_000));
}

#[test]
fn readings_are_summed_up() {
    let mut s = Spread::new();
    assert_eq!(s.mean_min(), None);
    s.push(10);
    s.push(5);
    s.push(6);
    assert_eq!(s.mean_min(), Some((7, 5)));
    assert_eq!(ns(24, 24_000_000), 1000);
    let mut t = RoundTrips::new();
    assert!(RoundTrips::waiting(1, 1, 0, 4800, 24_000_000));
    assert!(!RoundTrips::waiting(1, 1, 0, 4801, 24_000_000));
    assert!(!RoundTrips::waiting(1, 2, 0, 0, 24_000_000));
    t.round(0, 30, 10, 50);
    t.round(30, 30, 60, 70);
    assert_eq!((t.miss, t.entry.mean_min(), t.resume.mean_min()), (1, Some((20, 20)), Some((20, 20))));
    let mut w = Wakes::new();
    let dl = Wakes::deadline(1000, 24_000_000);
    assert_eq!(dl, 3400);
    w.round(0, 3500, 1000, dl, 3600);
    w.round(3500, 3500, 1, 2, 3);
    assert_eq!((w.miss, w.late.mean_min(), w.whole.mean_min()), (1, Some((100, 100)), Some((2600, 2600))));
}
