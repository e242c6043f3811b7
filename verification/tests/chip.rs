use rt_async_amp::chip::amp_config::{classify, constant_line, AmpConfig, Constant};
use rt_async_amp::chip::ap_uart::{
    choose_clock, ddn_rate, dll_for, pad83_heal, ApUart, Source, Step, POLL_LIMIT, SUCCR_14P7456M,
};
use rt_async_amp::chip::clint_k3::{window, HartWindow, K3MsIP, K3SysTimer};
use rt_async_amp::chip::clock::Ccu;
use rt_async_amp::chip::dtb::{locate_rtasync_dtb, root_readable, Located, SCAN_LEN};
use rt_async_amp::chip::handshake::spl_handshake;
use rt_async_amp::chip::mailbox::{new_msg_mask, MboxDriver, MboxK3};
use rt_async_amp::chip::pinctrl_k3::{PinRequest, PinctrlK3};
use rt_async_amp::chip::plic_k3::PlicK3;
use rt_async_amp::chip::pxa_uart::{line_setup, Ports, PxaUartDriver};
use rt_async_amp::chip::qemu::{ConsoleIrq, QemuVirtRt};
use rt_async_amp::chip::reg::{RegStep, RegWrite};
use rt_async_amp::chip::soft_uart::{match_guarded, set_line, SoftUart};
use rt_async_amp::chip::timer_k3::{init, now, ticks_to_ns, Access, Stage};
use rt_async_amp::chip::uart::putc;
use rt_async_amp::layout::{channel_offset, ring_indices, slot_offset};
use rt_async_amp::notifier::{ClintMsipNotifier, NotifierSlot, PeerNotifier};
use rt_async_amp::region::ShmDriver;

fn reg(addr: u64, value: u32) -> RegWrite {
    RegWrite { addr, value }
}

#[test]
fn a_divider_gives_its_rate() {
    assert_eq!(ddn_rate(SUCCR_14P7456M, 153_600_000), 14_745_600);
    assert_eq!(ddn_rate(24, 153_600_000), 0);
    assert_eq!(ddn_rate(125 << 16, 153_600_000), 0);
    assert_eq!(dll_for(14_745_600), Some(8));
    assert_eq!(dll_for(0), None);
    assert_eq!(dll_for(900_000), None);
    assert_eq!(dll_for(2_500_000), None);
}

#[test]
fn a_clock_is_chosen() {
    let second = (500 << 16) | 24;
    let c = choose_clock(0x20, SUCCR_14P7456M, second);
    assert_eq!((c.sel, c.dll, c.source), (2, 8, Source::Console));
    let c = choose_clock(0x10, SUCCR_14P7456M, 0);
    assert_eq!((c.sel, c.dll, c.source), (1, 8, Source::Console));
    let c = choose_clock(0, 0, second);
    assert_eq!((c.sel, c.dll, c.source), (2, 8, Source::Alive));
    let c = choose_clock(0x20, SUCCR_14P7456M, 0);
    assert_eq!((c.sel, c.dll, c.source), (1, 8, Source::Alive));
    let c = choose_clock(0, 0, 0);
    assert_eq!((c.sel, c.dll, c.source), (1, 8, Source::Programmed));
}

#[test]
fn the_transmitter_is_brought_up_and_sends() {
    let mut u = ApUart::new();
    assert!(u.send().is_none());
    let (c, steps) = u.probe(0, 0, 0);
    assert_eq!(c.source, Source::Programmed);
    assert_eq!(steps[0], RegStep::Write(reg(0xd405_0014, 0x7d_0018)));
    assert_eq!(steps[1], RegStep::Write(reg(0xd401_5074, 0x17)));
    assert_eq!(steps[2], RegStep::Spin(16));
    assert_eq!(steps[3], RegStep::Write(reg(0xd401_5074, 0x13)));
    assert_eq!(steps[4], RegStep::Write(reg(0xd401_740c, 0x80)));
    assert_eq!(steps.len(), 11);
    assert_eq!(pad83_heal(0xd044), None);
    assert_eq!(pad83_heal(0), Some(reg(0xd401_e14c, 0xd044)));
    let mut t = u.send().unwrap();
    assert_eq!(t.advance(b"ab", 0), Step::Poll);
    assert_eq!(t.advance(b"ab", 0x20), Step::Put(reg(0xd401_7400, 97)));
    assert_eq!(t.advance(b"ab", 0x20), Step::Put(reg(0xd401_7400, 98)));
    assert_eq!(t.advance(b"ab", 0x20), Step::Poll);
    assert_eq!(t.advance(b"ab", 0x40), Step::Done(2));
    let mut t = u.send().unwrap();
    for _ in 1..POLL_LIMIT {
        assert_eq!(t.advance(b"a", 0), Step::Poll);
    }
    assert_eq!(t.advance(b"a", 0), Step::Done(0));
}

#[test]
fn ports_take_their_places() {
    let mut ports = Ports::new();
    assert!(ports.port(0).is_none());
    let (p, writes) = PxaUartDriver.probe(&mut ports, 0xc088_1000).unwrap();
    assert_eq!((p.slot(), p.base()), (0, 0xc088_1000));
    assert_eq!(writes, line_setup(0xc088_1000, 8));
    assert_eq!(writes[1], reg(0xc088_1000, 8));
    assert_eq!(writes[6], reg(0xc088_1010, 8));
    assert_eq!(PxaUartDriver.probe(&mut ports, 1000).unwrap().0.slot(), 1);
    assert_eq!(PxaUartDriver.probe(&mut ports, 2000).unwrap().0.slot(), 2);
    assert!(PxaUartDriver.probe(&mut ports, 3000).is_none());
    assert_eq!(ports.port(1).unwrap().base(), 1000);
    assert!(ports.port(3).is_none());
    assert_eq!(p.write(b"a\nb"), b"a\r\nb");
    assert_eq!(p.write_raw(0, 5), None);
    assert_eq!(p.write_raw(0x20, 5), Some(reg(0xc088_1000, 5)));
    assert_eq!(p.read_raw(1, 0x141), Some(0x41));
    assert_eq!(p.read_raw(0, 0x141), None);
    assert_eq!(putc(0x20, 65), Some(reg(0xc088_1000, 65)));
    assert_eq!(putc(0, 65), None);
}

#[test]
fn the_timer_is_set_high_half_first() {
    let mut win = HartWindow::new();
    let (t, m) = (K3SysTimer, K3MsIP);
    assert_eq!((m.send(&win), m.clear(&win)), (None, None));
    t.probe(&mut win, 0xe400_0000, 1);
    assert_eq!(window(0xe400_0000, 1), 0xec00_0000);
    assert!(win.is_mapped());
    assert_eq!(
        t.set_deadline(&win, 0x1_0000_0002),
        vec![reg(0xec00_4004, 1), reg(0xec00_4000, 2)]
    );
    assert_eq!((t.freq_hz(), t.now()), (24_000_000, 0xe400_bff8));
    assert_eq!(m.send(&win), Some(reg(0xec00_0000, 1)));
    assert_eq!(m.clear(&win), Some(reg(0xec00_0000, 0)));
    let mut other = HartWindow::new();
    m.probe(&mut other, 0xe400_0000, 0);
    assert_eq!(t.set_deadline(&other, 1)[1], reg(0xe400_4000, 1));
}

#[test]
fn interrupts_are_enabled_one_by_one() {
    let mut p = PlicK3::new();
    assert_eq!(p.probe(0xe000_0000, 1), reg(0xe820_0000, 0));
    assert_eq!(p.enable_irq(69, 1), reg(0xe800_2008, 0x21));
    assert_eq!(p.disable_irq(69, 0x21), reg(0xe800_2008, 1));
    assert_eq!(p.set_priority(69, 2), reg(0xe800_0114, 2));
    assert_eq!((p.claim(), p.complete(9)), (0xe820_0004, reg(0xe820_0004, 9)));
}

#[test]
fn pins_are_set_in_pairs() {
    let mut p = PinctrlK3::new();
    p.probe(0xd401_e000);
    assert_eq!(
        p.apply(&PinRequest::Cells(vec![4, 0xd044, 8, 1, 12])),
        vec![reg(0xd401_e004, 0xd044), reg(0xd401_e008, 1)]
    );
    assert_eq!(p.apply(&PinRequest::Unnamed), vec![]);
    assert_eq!(p.apply(&PinRequest::Dangling), vec![]);
    assert_eq!(p.apply(&PinRequest::Empty), vec![]);
}

#[test]
fn clocks_are_started() {
    let (writes, strange) = Ccu.enable_for(&[0, 11, 99, 21]);
    assert_eq!(
        writes,
        vec![reg(0xc088_1f00, 3), reg(0xc088_6f04, 3), reg(0xc088_5f04, 3)]
    );
    assert_eq!(strange, vec![99]);
    assert_eq!(Ccu.probe(0x1234), reg(0xc088_003c, 0x8000_1234));
    assert_eq!(spl_handshake(), reg(0xc088_007c, 1));
}

#[test]
fn a_mailbox_signals_and_is_drained() {
    let mut d = MboxDriver::new();
    assert_eq!(d.probe(0x1000, 69, true), Some((0, reg(0x1190, 0))));
    assert_eq!(d.probe(0x2000, 70, false), Some((1, reg(0x2180, 0))));
    assert_eq!(d.probe(0x3000, 71, false), None);
    assert_eq!(d.instance_for_irq(70), None);
    let setups = d.setup_interrupts();
    assert_eq!(d.instance_for_irq(69), Some(0));
    assert_eq!(d.instance_for_irq(70), Some(1));
    assert_eq!(d.instance_for_irq(5), None);
    assert_eq!(setups.len(), 2);
    assert_eq!((setups[0].irq, setups[0].priority, setups[0].enable), (69, 1, reg(0x1118, 1)));
    let mut m = d.get(0);
    assert_eq!(m.irq(), 69);
    assert_eq!(m.signal(1), (reg(0x1108, 4), reg(0x1044, 1)));
    assert_eq!(m.clear_irq_pending(2), reg(0x1114, 0x10));
    assert_eq!(m.trigger_local_irq(0), reg(0x1110, 1));
    assert_eq!(m.disable_new_msg_irq(3), reg(0x111c, 0x40));
    assert_eq!((m.fifo_status(1), m.msg_status(1), m.ack(1)), (0x1084, 0x10c4, 0x1044));
    assert!(m.fifo_is_empty(2) && m.fifo_is_full(1) && m.msg_count(0x13) == 3);
    assert!(m.irq_enabled(4, 1) && !m.irq_pending_raw(4, 0));
    let drains = m.mbox_isr(0x15, 0x41 | 0x10).unwrap();
    assert_eq!(drains.len(), 2);
    assert_eq!((drains[0].ch, drains[0].queue, drains[0].clear), (0, 0x1040, reg(0x1114, 1)));
    assert_eq!((drains[1].ch, drains[1].queue, drains[1].clear), (2, 0x1048, reg(0x1114, 0x10)));
    assert!(!m.recv());
    assert!(m.mbox_isr(1, 2).is_none());
    assert!(m.recv() && !m.recv());
    d.put(0, m);
    assert_eq!(new_msg_mask(3), 0x40);
}

#[test]
fn the_counter_is_started_or_given_up() {
    let prepared = || {
        let mut s = init();
        let mut log = Vec::new();
        for v in [0x54, 0, 0, 1, 0, 0] {
            log.push(s.due().unwrap());
            s.advance(v);
        }
        (s, log)
    };
    let (mut s, log) = prepared();
    assert_eq!(
        log,
        vec![
            Access::Read(0xd401_5044),
            Access::Write(reg(0xd401_5044, 0x57)),
            Access::Write(reg(0xd401_5044, 0x53)),
            Access::Read(0xd401_6004),
            Access::Write(reg(0xd401_6004, 3)),
            Access::Write(reg(0xd401_6054, 0)),
        ]
    );
    s.advance(4);
    assert_eq!(s.due(), Some(Access::Write(reg(0xd401_6000, 6))));
    s.advance(0);
    assert_eq!(s.due(), Some(Access::Read(0xd401_6000)));
    s.advance(2);
    assert_eq!((s.stage, s.due(), s.failed()), (Stage::Running, None, false));
    let (mut s, _) = prepared();
    let mut reads = 0;
    while s.due().is_some() {
        s.advance(0);
        reads += 1;
    }
    assert_eq!((reads, s.failed()), (24, true));
    assert_eq!(ticks_to_ns(128), 10_000);
    assert_eq!(now(u32::MAX), 0xffff_ffff);
}

#[test]
fn a_byte_goes_out_bit_by_bit() {
    let mut u = SoftUart::new();
    let s = u.send(&[0x41, 0x42]);
    assert_eq!((s.accepted, s.start), (2, true));
    assert_eq!(u.kick(100, 101), Some(117));
    let mut levels = Vec::new();
    for i in 0..9 {
        let t = u.on_timer_irq(100 + 20 * i);
        levels.push(t.line.unwrap());
    }
    assert_eq!(levels, vec![true, false, false, false, false, false, true, false, true]);
    assert_eq!(u.on_timer_irq(400).line, Some(false));
    assert!(!u.idle());
    let mut released = false;
    for i in 0..11 {
        released = released || u.on_timer_irq(500 + 20 * i).release;
    }
    assert!(released && u.idle());
    assert_eq!(u.stats(), (1, 0));
    assert!(match_guarded(100, 90) == 100);
    u.send(&[1]);
    assert_eq!(u.kick(100, 130), Some(132));
    assert_eq!(SoftUart::new().kick(100, 101), None);
    assert_ne!(set_line(true), set_line(false));
}

#[test]
fn the_console_interrupt_settles() {
    let b = QemuVirtRt { clint_base: 0x200_0000, plic_base: 0xc00_0000, uart1_irq: 11 };
    assert_eq!(b.send_ipi_to_linux(), reg(0x200_0000, 1));
    assert_eq!(b.clear_ipi_to_linux(), reg(0x200_0000, 0));
    assert_eq!(b.priority_addr(), 0xc00_002c);
    let s = ConsoleIrq::setup_console_irq(10, 5);
    assert_eq!(s.wait(34), s);
    let mut c = s.wait(35);
    assert_eq!(c, ConsoleIrq::Confirm(20));
    for _ in 0..19 {
        c = c.confirm(0);
    }
    assert_eq!(c.confirm(2), ConsoleIrq::Stable);
    assert_eq!(c.confirm(0), ConsoleIrq::Unstable);
}

fn be(v: u32) -> [u8; 4] {
    v.to_be_bytes()
}

/// A tree whose root has one `compatible` property and one child with another.
fn tree(root: &[u8], child: &[u8]) -> Vec<u8> {
    let mut nodes = Vec::new();
    nodes.extend(be(1));
    nodes.extend([0; 4]);
    for (value, begin) in [(root, false), (child, true)] {
        if begin {
            nodes.extend(be(1));
            nodes.extend(b"sub\0");
        }
        nodes.extend(be(3));
        nodes.extend(be(value.len() as u32));
        nodes.extend(be(0));
        nodes.extend(value);
        while nodes.len() % 4 != 0 {
            nodes.push(0);
        }
    }
    nodes.extend(be(2));
    nodes.extend(be(2));
    nodes.extend(be(9));
    wrapped(&nodes, b"compatible\0")
}

/// A tree with the given nodes and strings.
fn wrapped(nodes: &[u8], strings: &[u8]) -> Vec<u8> {
    let off_struct = 40 + 16;
    let off_strings = off_struct + nodes.len();
    let total = off_strings + strings.len();
    let mut b = Vec::new();
    for v in [
        0xd00d_feed,
        total as u32,
        off_struct as u32,
        off_strings as u32,
        40,
        17,
        16,
        0,
        strings.len() as u32,
        nodes.len() as u32,
    ] {
        b.extend(be(v));
    }
    b.extend([0; 16]);
    b.extend(nodes);
    b.extend(strings);
    b
}

fn memory_with(page: usize, t: &[u8]) -> Vec<u8> {
    let mut m = vec![0u8; SCAN_LEN];
    m[page * 0x1000..page * 0x1000 + t.len()].copy_from_slice(t);
    m
}

#[test]
fn the_tree_is_found_by_its_root() {
    let ours = tree(b"ov,board\0ov,rt-async\0", b"other\0");
    assert!(root_readable(&ours));
    let m = memory_with(3, &ours);
    assert_eq!(locate_rtasync_dtb(&m), Located::At(0x3000, ours.len()));
    let m = memory_with(15, &ours);
    assert_eq!(locate_rtasync_dtb(&m), Located::At(0xf000, ours.len()));
    let other = tree(b"linux,virt\0", b"ov,rt-async\0");
    let m = memory_with(0, &other);
    assert_eq!(locate_rtasync_dtb(&m), Located::Nothing);
    assert_eq!(locate_rtasync_dtb(&vec![0u8; SCAN_LEN]), Located::Nothing);
}

/// A tree whose root is this program's, with more words in its list before the
/// given properties: offsets of their names, and values.
fn rooted(words: &[u32], props: &[(u32, &[u8])]) -> Vec<u8> {
    let strings = b"compatible\0ranges\0interrupt-parent\0";
    let mut nodes = Vec::new();
    nodes.extend(be(1));
    nodes.extend([0; 4]);
    let name: (u32, &[u8]) = (0, b"ov,rt-async\0");
    for (i, (at, value)) in [name].iter().chain(props).enumerate() {
        if i == 1 {
            for w in words {
                nodes.extend(be(*w));
            }
        }
        nodes.extend(be(3));
        nodes.extend(be(value.len() as u32));
        nodes.extend(be(*at));
        nodes.extend(*value);
        while nodes.len() % 4 != 0 {
            nodes.push(0);
        }
    }
    nodes.extend(be(2));
    nodes.extend(be(9));
    wrapped(&nodes, strings)
}

#[test]
fn only_the_list_of_the_root_counts() {
    let (ranges, parent): (u32, u32) = (11, 18);
    for (words, props, readable) in [
        (vec![], vec![(ranges, b"".as_slice())], false),
        (vec![4], vec![(ranges, b"".as_slice())], false),
        (vec![7], vec![(ranges, b"".as_slice())], true),
        (vec![], vec![(parent, b"ab".as_slice())], false),
        (vec![7], vec![(parent, b"ab".as_slice())], true),
        (vec![], vec![(parent, b"abcd".as_slice())], true),
        (vec![], vec![(parent, b"abcd".as_slice()), (parent, b"ab".as_slice())], true),
    ] {
        let t = rooted(&words, &props);
        assert_eq!(root_readable(&t), readable);
        let found = locate_rtasync_dtb(&memory_with(2, &t));
        if readable {
            assert_eq!(found, Located::At(0x2000, t.len()));
        } else {
            assert_eq!(found, Located::Unreadable(0x2000));
        }
    }
}

#[test]
fn a_tree_that_cannot_be_read_stops_the_search() {
    let mut bad = tree(b"ov,rt-async\0", b"other\0");
    bad[40 + 16 + 3] = 2;
    assert!(!root_readable(&bad));
    let m = memory_with(1, &bad);
    assert_eq!(locate_rtasync_dtb(&m), Located::Unreadable(0x1000));
    let mut cut = tree(b"ov,rt-async\0", b"other\0");
    cut[36..40].copy_from_slice(&be(0x10_0000));
    assert!(!root_readable(&cut));
}

#[test]
fn a_configuration_becomes_constants() {
    let text = b"# board\n\nShmBase = 0x88000000\nname=virt\n  irq = 0x0b\nbroken\nname = other\nbig=18446744073709551615\n";
    let c = AmpConfig::load_amp_config(text);
    assert_eq!(c.get(b"ShmBase"), Some(&b"0x88000000"[..]));
    assert_eq!(c.get(b"name"), Some(&b"other"[..]));
    assert_eq!(c.get(b"broken"), None);
    let out = String::from_utf8(c.generate_rs()).unwrap();
    assert!(out.contains("pub const SHMBASE: usize = 0x88000000;\n"));
    assert!(out.contains("pub const NAME: &str = \"other\";\n"));
    assert!(out.contains("pub const IRQ: usize = 0xb;\n"));
    assert!(out.contains("pub const BIG: usize = 18446744073709551615;\n"));
    assert_eq!(classify(b"10"), Constant::Hex(16));
    assert_eq!(classify(b"0x"), Constant::Text);
    assert_eq!(classify(b"+ff"), Constant::Hex(255));
    assert_eq!(constant_line(b"a_b", b"x y"), b"pub const A_B: &str = \"x y\";\n");
}

#[test]
fn a_configuration_may_hold_any_text() {
    let text = "# Größe\nboard = Zürich\u{3000}\n\u{a0}irq\u{2003}= 7\n";
    let c = AmpConfig::load_amp_config(text.as_bytes());
    assert_eq!(c.get(b"board"), Some("Zürich".as_bytes()));
    assert_eq!(c.get(b"irq"), Some(&b"7"[..]));
    assert!(c.has_plain_names());
    let out = String::from_utf8(c.generate_rs()).unwrap();
    assert!(out.contains("pub const BOARD: &str = \"Zürich\";\n"));
    assert!(!AmpConfig::load_amp_config("größe=1".as_bytes()).has_plain_names());
}

#[test]
fn bytes_that_find_no_room_are_counted() {
    let mut u = SoftUart::new();
    let s = u.send(&[7; 200]);
    assert_eq!((s.accepted, s.start), (128, true));
    assert_eq!(u.stats(), (0, 72));
    u.send(&[1, 2]);
    assert_eq!(u.stats(), (0, 74));
}

#[test]
fn a_mailbox_says_whether_it_was_found() {
    assert!(!MboxK3::new().is_found());
    let mut d = MboxDriver::new();
    assert!(!d.get(0).is_found());
    let (i, _) = d.probe(0xd401_0000, 69, false).unwrap();
    assert!(d.get(i).is_found());
}

#[test]
fn the_window_is_laid_out() {
    assert_eq!(channel_offset(0), 0x100);
    assert_eq!(channel_offset(3), 0x1_8700);
    assert_eq!(slot_offset(1, 2), 0x100 + 0x8200 + 0x200 + 512);
    assert_eq!(ring_indices(0), (0x200, 0x208));
    let mut d = ShmDriver::new();
    assert!(!d.is_found());
    d.probe(0, 0x19000);
    assert!(d.is_found());
    assert_eq!((d.base(), d.size()), (0, 0x19000));
    assert_eq!(d.compatible(), "ov,rt-async-amp");
}

#[test]
fn the_other_core_is_woken() {
    let mut n = ClintMsipNotifier::new();
    assert!(!n.is_found());
    n.probe(0x200_0000);
    assert!(n.is_found());
    let mut slot = NotifierSlot::new();
    assert!(slot.try_notifier().is_none());
    slot.set(n);
    assert_eq!(slot.notifier().notify(), vec![reg(0x200_0000, 1)]);
    assert!(slot.try_notifier().is_some());
}
