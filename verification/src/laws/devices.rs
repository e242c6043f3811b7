//! The devices of the real-time core: which registers are written, and with what.

use crate::chip::clint_k3::{HartWindow, K3MsIP, K3SysTimer};
use crate::chip::clock::{enable_periph, Ccu};
use crate::chip::handshake::spl_handshake;
use crate::chip::mailbox::{new_msg_mask, Drain, MboxDriver, MboxK3, Setup};
use crate::chip::pinctrl_k3::{PinRequest, PinctrlK3};
use crate::chip::plic_k3::PlicK3;
use crate::chip::pxa_uart::{line_setup, Ports, PxaUart, PxaUartDriver};
use crate::chip::qemu::{ConsoleIrq, QemuVirtRt};
use crate::chip::reg::RegWrite;
use crate::chip::timer_k3::{Access, Stage, Start};
use vstd::prelude::*;

verus! {

/// The timer counts 24 million ticks a second, at 0xe400bff8; the window of a core is
/// 0x8000000 bytes from that of the core before it, and its deadline is 0x4000 bytes
/// into it. The two writes of a deadline are its high half and then its low half.
pub proof fn law_deadline_of_a_core(
    t: &K3SysTimer,
    w: &mut HartWindow,
    base: u64,
    hart: u32,
    freq: u32,
    count: u64,
    tick: u64,
    r: Vec<RegWrite>,
)
    requires
        base + hart * 0x800_0000 <= u64::MAX,
        base + hart * 0x800_0000 + 0x4004 <= u64::MAX,
        call_ensures(K3SysTimer::probe, (t, w, base, hart), ()),
        call_ensures(K3SysTimer::freq_hz, (t,), freq),
        call_ensures(K3SysTimer::now, (t,), count),
        call_ensures(K3SysTimer::set_deadline, (t, final(w), tick), r),
    ensures
        final(w).at() == base + hart * 0x800_0000,
        freq == 24_000_000,
        count == 0xe400_bff8,
        r@.len() == 2,
        r@[0].addr == base + hart * 0x800_0000 + 0x4004,
        r@[1].addr == base + hart * 0x800_0000 + 0x4000,
        0x1_0000_0000 * r@[0].value + r@[1].value == tick,
{
}

/// The software interrupt is raised with 1 and taken back with 0, at the start of the
/// window of the core; nothing is written before the window was found.
pub proof fn law_software_interrupt(
    m: &K3MsIP,
    new: HartWindow,
    w: &mut HartWindow,
    base: u64,
    hart: u32,
    none: Option<RegWrite>,
    up: Option<RegWrite>,
    down: Option<RegWrite>,
    mapped: bool,
)
    requires
        base + hart * 0x800_0000 <= u64::MAX,
        call_ensures(HartWindow::new, (), new),
        call_ensures(K3MsIP::send, (m, &new), none),
        call_ensures(K3MsIP::probe, (m, w, base, hart), ()),
        call_ensures(K3MsIP::send, (m, final(w)), up),
        call_ensures(K3MsIP::clear, (m, final(w)), down),
        call_ensures(HartWindow::is_mapped, (final(w),), mapped),
    ensures
        none is None,
        base + hart * 0x800_0000 == 0 ==> up is None && down is None,
        base + hart * 0x800_0000 > 0 ==> up is Some && up->0.addr == base + hart * 0x800_0000
            && up->0.value == 1 && down is Some && down->0.addr == up->0.addr && down->0.value == 0,
        mapped <==> base + hart * 0x800_0000 + 0x4004 <= u64::MAX,
{
}

/// A device is started by both clocks and with its reset released (3), from the source in
/// bits 4 and 5.
pub proof fn law_device_is_started(addr: u64, sel: u32, r: RegWrite)
    requires
        call_ensures(enable_periph, (addr, sel), r),
    ensures
        r.addr == addr,
        r.value % 16 == 3,
        r.value / 16 == sel % 4,
{
}

/// Clock 0 starts the serial ports, 10 to 12 the two-wire buses, 20 and 21 the four-wire
/// buses; there is no other.
pub proof fn law_clocks(c: &Ccu, id: u32, r: Option<RegWrite>)
    requires
        call_ensures(Ccu::enable, (c, id), r),
    ensures
        r is Some <==> id == 0 || id == 10 || id == 11 || id == 12 || id == 20 || id == 21,
        r is Some ==> r->0.value == 3,
        id == 0 ==> r->0.addr == 0xc088_1f00,
        id == 10 ==> r->0.addr == 0xc088_6f00,
        id == 11 ==> r->0.addr == 0xc088_6f04,
        id == 12 ==> r->0.addr == 0xc088_6f08,
        id == 20 ==> r->0.addr == 0xc088_5f00,
        id == 21 ==> r->0.addr == 0xc088_5f04,
{
}

/// The shared divider is switched on by its highest bit; its ratio stays.
pub proof fn law_divider_is_switched_on(c: &Ccu, held: u32, r: RegWrite)
    requires
        call_ensures(Ccu::probe, (c, held), r),
    ensures
        r.addr == 0xc088_003c,
        r.value >= 0x8000_0000,
        r.value % 0x8000_0000 == held % 0x8000_0000,
{
    assert((held | 0x8000_0000u32) >= 0x8000_0000u32) by (bit_vector);
}

/// A device that names one clock more has one write more, in the order of its clocks, or
/// one clock more that is not known.
pub proof fn law_clocks_of_a_device(
    c: &Ccu,
    none: &[u32],
    r0: (Vec<RegWrite>, Vec<u32>),
    a: &[u32],
    r1: (Vec<RegWrite>, Vec<u32>),
    b: &[u32],
    r2: (Vec<RegWrite>, Vec<u32>),
    id: u32,
    w: Option<RegWrite>,
)
    requires
        none@.len() == 0,
        call_ensures(Ccu::enable_for, (c, none), r0),
        call_ensures(Ccu::enable_for, (c, a), r1),
        b@ == a@.push(id),
        call_ensures(Ccu::enable_for, (c, b), r2),
        call_ensures(Ccu::enable, (c, id), w),
    ensures
        r0.0@.len() == 0 && r0.1@.len() == 0,
        w is Some ==> r2.0@ == r1.0@.push(w->0) && r2.1@ == r1.1@,
        w is None ==> r2.0@ == r1.0@ && r2.1@ == r1.1@.push(id),
{
    reveal(Seq::filter);
    assert(b@.drop_last() =~= a@);
    let known = |id: u32| crate::chip::clock::register_of(id) is Some;
    let unknown = |id: u32| crate::chip::clock::register_of(id) is None;
    let started = |id: u32|
        RegWrite {
            addr: crate::chip::clock::register_of(id)->0,
            value: crate::chip::clock::running(0),
        };
    if w is Some {
        assert(b@.filter(known) == a@.filter(known).push(id));
        assert(b@.filter(known).map_values(started) =~= a@.filter(known).map_values(started).push(
            w->0,
        ));
        assert(b@.filter(unknown) == a@.filter(unknown));
    } else {
        assert(b@.filter(known) == a@.filter(known));
        assert(b@.filter(unknown) == a@.filter(unknown).push(id));
    }
}

/// The interrupt controller, as one core sees it: the enable of an interrupt is a bit of a
/// word from 0x2000 on, its priority a word from the start of the window on, the
/// threshold is at 0x200000, and interrupts are claimed and completed at 0x200004.
pub proof fn law_interrupt_controller(
    p: &mut PlicK3,
    base: u64,
    hart: u32,
    first: RegWrite,
    irq: u32,
    held: u32,
    on: RegWrite,
    off: RegWrite,
    prio: u32,
    q: RegWrite,
    thr: u32,
    t: RegWrite,
    at: u64,
    done: RegWrite,
    en: u64,
)
    requires
        base + hart * 0x800_0000 + 0x4_0000_0000 <= u64::MAX,
        call_ensures(PlicK3::probe, (p, base, hart), first),
        call_ensures(PlicK3::enable_irq, (final(p), irq, held), on),
        call_ensures(PlicK3::disable_irq, (final(p), irq, held), off),
        call_ensures(PlicK3::set_priority, (final(p), irq, prio), q),
        call_ensures(PlicK3::set_threshold, (final(p), thr), t),
        call_ensures(PlicK3::claim, (final(p),), at),
        call_ensures(PlicK3::complete, (final(p), irq), done),
        call_ensures(PlicK3::enable_addr, (final(p), irq), en),
    ensures
        ({
            let win = base + hart * 0x800_0000;
            &&& first.addr == win + 0x20_0000 && first.value == 0
            &&& en == win + 0x2000 + irq / 32 * 4
            &&& on.addr == en && on.value == held | (1u32 << (irq % 32))
            &&& off.addr == en && off.value == held & !(1u32 << (irq % 32))
            &&& q.addr == win + 4 * irq && q.value == prio
            &&& t.addr == win + 0x20_0000 && t.value == thr
            &&& at == win + 0x20_0004
            &&& done.addr == win + 0x20_0004 && done.value == irq
        }),
{
}

/// Pins are set pair by pair: an offset from the start of the registers, and the value for
/// it. What names no pins sets none.
pub proof fn law_pins(p: &mut PinctrlK3, base: u64, request: &PinRequest, r: Vec<RegWrite>)
    requires
        base + 0xffff_ffff <= u64::MAX,
        call_ensures(PinctrlK3::probe, (p, base), ()),
        call_ensures(PinctrlK3::apply, (final(p), request), r),
    ensures
        *request matches PinRequest::Cells(cells) ==> {
            &&& r@.len() == cells@.len() / 2
            &&& forall|i: int|
                0 <= i < r@.len() ==> (#[trigger] r@[i]).addr == base + cells@[2 * i]
                    && r@[i].value == cells@[2 * i + 1]
        },
        !(*request is Cells) ==> r@.len() == 0,
{
}

/// The core tells that it has started with a 1 at 0xc088007c.
pub proof fn law_ready_sign(r: RegWrite)
    requires
        call_ensures(spl_handshake, (), r),
    ensures
        r.addr == 0xc088_007c,
        r.value == 1,
{
}

/// On the emulated board the other core is woken with 1 and its wake taken back with 0, at
/// the start of the software interrupts; the priority of an interrupt is its word of the
/// controller.
pub proof fn law_emulated_board(b: &QemuVirtRt, up: RegWrite, down: RegWrite, at: u64)
    requires
        b.plic_base + 4 * b.uart1_irq <= u64::MAX,
        call_ensures(QemuVirtRt::send_ipi_to_linux, (b,), up),
        call_ensures(QemuVirtRt::clear_ipi_to_linux, (b,), down),
        call_ensures(QemuVirtRt::priority_addr, (b,), at),
    ensures
        up.addr == b.clint_base && up.value == 1,
        down.addr == b.clint_base && down.value == 0,
        at == b.plic_base + 4 * b.uart1_irq,
{
}

/// The console's interrupt is set up three seconds after the start, and then up to twenty
/// times, until its priority is read back as 2.
pub proof fn law_console_interrupt_is_confirmed(
    freq: u32,
    t0: u64,
    start: ConsoleIrq,
    t: u64,
    a: ConsoleIrq,
    s: ConsoleIrq,
    prio: u32,
    b: ConsoleIrq,
)
    requires
        t0 <= t,
        call_ensures(ConsoleIrq::setup_console_irq, (freq, t0), start),
        call_ensures(ConsoleIrq::wait, (start, t), a),
        call_ensures(ConsoleIrq::confirm, (s, prio), b),
    ensures
        t - t0 < 3 * freq ==> a == start,
        t - t0 >= 3 * freq ==> a == ConsoleIrq::Confirm(20),
        s matches ConsoleIrq::Confirm(n) ==> {
            &&& prio == 2 ==> b == ConsoleIrq::Stable
            &&& prio != 2 && n > 1 ==> b == ConsoleIrq::Confirm((n - 1) as u32)
            &&& prio != 2 && n <= 1 ==> b == ConsoleIrq::Unstable
        },
        !(s is Confirm) ==> b == s,
{
}

/// What a serial port holds.
pub struct Line {
    /// The divisor latch is open.
    pub open: bool,
    /// The divisor.
    pub low: int,
    /// Its high half.
    pub high: int,
    /// The interrupt enable.
    pub enable: int,
    /// The line control.
    pub control: int,
    /// The queue control.
    pub queues: int,
    /// The modem control.
    pub modem: int,
}

/// A serial port after one write: the registers at 0, 4, 8, 12 and 16, of which the first
/// two are the divisor while the latch is open.
pub open spec fn line_after(base: u64, l: Line, w: RegWrite) -> Line {
    let v = w.value as int;
    if w.addr == base + 12 {
        Line { open: v >= 0x80, control: v, ..l }
    } else if w.addr == base && l.open {
        Line { low: v, ..l }
    } else if w.addr == base + 4 && l.open {
        Line { high: v, ..l }
    } else if w.addr == base + 4 {
        Line { enable: v, ..l }
    } else if w.addr == base + 8 {
        Line { queues: v, ..l }
    } else if w.addr == base + 16 {
        Line { modem: v, ..l }
    } else {
        l
    }
}

/// A serial port after some writes.
pub open spec fn line_after_all(base: u64, l: Line, w: Seq<RegWrite>) -> Line
    decreases w.len(),
{
    if w.len() == 0 {
        l
    } else {
        line_after(base, line_after_all(base, l, w.drop_last()), w.last())
    }
}

/// A port that is set up: eight data bits, no parity, one stop bit with the latch closed,
/// the divisor, the queues on and emptied, the unit on, and the second output set.
pub open spec fn is_set_up(l: Line, divisor: int) -> bool {
    &&& !l.open
    &&& l.control == 3
    &&& l.low == divisor % 256
    &&& l.high == divisor / 256 % 256
    &&& l.queues == 7
    &&& l.enable == 0x40
    &&& l.modem == 8
}

pub(crate) proof fn lemma_line(base: u64, divisor: u32, l: Line)
    requires
        base + 16 <= u64::MAX,
    ensures
        is_set_up(
            line_after_all(base, l, crate::chip::pxa_uart::line_setup_of(base, divisor)),
            divisor as int,
        ),
{
    let s = crate::chip::pxa_uart::line_setup_of(base, divisor);
    reveal_with_fuel(line_after_all, 8);
    let s6 = s.drop_last();
    let s5 = s6.drop_last();
    let s4 = s5.drop_last();
    let s3 = s4.drop_last();
    let s2 = s3.drop_last();
    let s1 = s2.drop_last();
    assert(s1.drop_last().len() == 0);
    assert(s6.last() == s[5] && s5.last() == s[4] && s4.last() == s[3]);
    assert(s3.last() == s[2] && s2.last() == s[1] && s1.last() == s[0]);
}

/// Whatever a port held before, it is set up after the writes.
pub proof fn law_port_is_set_up(base: u64, divisor: u32, r: Vec<RegWrite>, l: Line)
    requires
        base + 16 <= u64::MAX,
        call_ensures(line_setup, (base, divisor), r),
    ensures
        is_set_up(line_after_all(base, l, r@), divisor as int),
{
    lemma_line(base, divisor, l);
}

/// The console before the drivers are there is the port at 0xc0881000, set up for 115200
/// baud (8); a byte is written to it where its data register is empty.
pub proof fn law_early_console(w: Vec<RegWrite>, lsr: u32, c: u8, r: Option<RegWrite>, l: Line)
    requires
        call_ensures(crate::chip::uart::init, (), w),
        call_ensures(crate::chip::uart::putc, (lsr, c), r),
    ensures
        is_set_up(line_after_all(0xc088_1000, l, w@), 8),
        r is Some <==> lsr & 0x20 != 0,
        r is Some ==> r->0.addr == 0xc088_1000 && r->0.value == c,
{
    lemma_line(0xc088_1000, 8, l);
}

/// Ports get the first free of three places, in the order in which they are found, and are
/// set up for 115200 baud; a fourth gets none.
pub proof fn law_ports_are_placed(
    d: &PxaUartDriver,
    new: Ports,
    p: &mut Ports,
    base: u64,
    r: Option<(PxaUart, Vec<RegWrite>)>,
    slot: usize,
    found: Option<PxaUart>,
    n: usize,
    at: u64,
    l: Line,
)
    requires
        base > 0,
        base + 16 <= u64::MAX,
        call_ensures(Ports::new, (), new),
        call_ensures(PxaUartDriver::probe, (d, p, base), r),
        r is Some ==> call_ensures(PxaUart::slot, (&(r->0).0,), n) && call_ensures(
            PxaUart::base,
            (&(r->0).0,),
            at,
        ),
        call_ensures(Ports::port, (final(p), slot), found),
    ensures
        new@ == seq![0u64, 0, 0],
        r is Some <==> old(p)@[0] == 0 || old(p)@[1] == 0 || old(p)@[2] == 0,
        r is Some ==> {
            &&& n < 3
            &&& old(p)@[n as int] == 0
            &&& forall|i: int| 0 <= i < n ==> #[trigger] old(p)@[i] != 0
            &&& forall|i: int| 0 <= i < 3 && i != n ==> final(p)@[i] == #[trigger] old(p)@[i]
            &&& final(p)@[n as int] == base
            &&& at == base
            &&& is_set_up(line_after_all(base, l, (r->0).1@), 8)
            &&& slot == n ==> found is Some && found->0.at() == base && found->0.place() == n
        },
        r is None ==> final(p)@ == old(p)@,
        slot >= 3 ==> found is None,
{
    lemma_line(base, 8, l);
    let b = old(p)@;
    if !(b[0] == 0 || b[1] == 0 || b[2] == 0) {
        assert forall|i: int| 0 <= i < 3 implies b[i] != 0 by {
            assert(i == 0 || i == 1 || i == 2);
        }
    }
}

/// A line feed goes out behind a carriage return, and any other byte as it is.
pub proof fn law_text_goes_out(
    p: &PxaUart,
    none: &[u8],
    r0: Vec<u8>,
    a: &[u8],
    r1: Vec<u8>,
    b: &[u8],
    r2: Vec<u8>,
    c: u8,
)
    requires
        none@.len() == 0,
        call_ensures(PxaUart::write, (p, none), r0),
        call_ensures(PxaUart::write, (p, a), r1),
        b@ == a@.push(c),
        call_ensures(PxaUart::write, (p, b), r2),
    ensures
        r0@.len() == 0,
        c == 10 ==> r2@ == r1@ + seq![13u8, 10u8],
        c != 10 ==> r2@ == r1@ + seq![c],
{
    assert(b@.drop_last() =~= a@);
    assert(r1@.push(13).push(10) =~= r1@ + seq![13u8, 10u8]);
    assert(r1@.push(c) =~= r1@ + seq![c]);
}

/// A byte is written to the data register where bit 5 of the status says that it takes one,
/// and read from it where bit 0 says that there is one.
pub proof fn law_bytes_of_a_port(
    p: &PxaUart,
    lsr: u32,
    byte: u8,
    w: Option<RegWrite>,
    data: u32,
    has: bool,
    r: Option<u8>,
)
    requires
        call_ensures(PxaUart::write_raw, (p, lsr, byte), w),
        call_ensures(PxaUart::has_data, (p, lsr), has),
        call_ensures(PxaUart::read_raw, (p, lsr, data), r),
    ensures
        w is Some <==> lsr & 0x20 != 0,
        w is Some ==> w->0.addr == p.at() && w->0.value == byte,
        has <==> lsr & 1 != 0,
        r is Some <==> lsr & 1 != 0,
        r is Some ==> r->0 == data % 256,
{
}

/// The quick counter is prepared, and then enabled until it is seen to be, up to eight
/// times: first the clock register is read, and its gates opened with the reset held and
/// then released.
pub proof fn law_counter_starts(
    first: Start,
    s: &mut Start,
    v: u32,
    due: Option<Access>,
    failed: bool,
)
    requires
        call_ensures(crate::chip::timer_k3::init, (), first),
        call_ensures(Start::due, (old(s),), due),
        call_ensures(Start::failed, (old(s),), failed),
        call_ensures(Start::advance, (s, v), ()),
    ensures
        first.stage == Stage::ReadGate,
        old(s).stage == Stage::ReadGate ==> due == Some(Access::Read(0xd401_5044)) && final(s).stage
            == Stage::Hold(v),
        old(s).stage matches Stage::Hold(g) ==> due is Some && due->0 is Write
            && due->0->Write_0.addr == 0xd401_5044 && due->0->Write_0.value % 8 == 7
            && due->0->Write_0.value / 8 == g / 8 && final(s).stage == Stage::Release(g),
        old(s).stage matches Stage::Release(g) ==> due is Some && due->0 is Write
            && due->0->Write_0.addr == 0xd401_5044 && due->0->Write_0.value % 8 == 3
            && due->0->Write_0.value / 8 == g / 8 && final(s).stage == Stage::ReadMode,
        old(s).stage == Stage::ReadMode ==> due == Some(Access::Read(0xd401_6004)) && final(s).stage
            == Stage::SetMode(v),
        old(s).stage matches Stage::SetMode(c) ==> due == Some(
            Access::Write(RegWrite { addr: 0xd401_6004, value: c | 2 }),
        ) && final(s).stage == Stage::ClearPreload,
        old(s).stage == Stage::ClearPreload ==> due == Some(
            Access::Write(RegWrite { addr: 0xd401_6054, value: 0 }),
        ) && final(s).stage == Stage::ReadEnable(8),
        old(s).stage matches Stage::ReadEnable(n) ==> due == Some(Access::Read(0xd401_6000))
            && final(s).stage == Stage::Enable(v, n),
        old(s).stage matches Stage::Enable(c, n) ==> due == Some(
            Access::Write(RegWrite { addr: 0xd401_6000, value: c | 2 }),
        ) && final(s).stage == Stage::Verify(n),
        old(s).stage matches Stage::Verify(n) ==> due == Some(Access::Read(0xd401_6000)) && (v & 2
            != 0 ==> final(s).stage == Stage::Running) && (v & 2 == 0 && n > 1 ==> final(s).stage
            == Stage::ReadEnable((n - 1) as u32)) && (v & 2 == 0 && n <= 1 ==> final(s).stage
            == Stage::Failed),
        old(s).stage == Stage::Running || old(s).stage == Stage::Failed ==> due is None && *final(s)
            == *old(s),
        failed <==> old(s).stage == Stage::Failed,
{
}

/// The quick counter counts 12.8 million times a second: 8 counts are 625 nanoseconds.
pub proof fn law_quick_counter(t: u64, ns: u64, c: u32, now: u64)
    requires
        t * 1_000_000_000 <= u64::MAX,
        call_ensures(crate::chip::timer_k3::ticks_to_ns, (t,), ns),
        call_ensures(crate::chip::timer_k3::now, (c,), now),
    ensures
        8 * ns <= 625 * t < 8 * (ns + 1),
        now == c,
{
}

/// The registers of a mailbox: for each channel its queue from 0x40 on, its state from
/// 0x80 on and its number of words from 0xc0 on; and for each user its interrupts from
/// 0x100 on, in sixteen bytes: raised, clear, enable, disable.
pub proof fn law_mailbox_registers(
    m: &MboxK3,
    ch: u8,
    queue: u64,
    state: u64,
    count: u64,
    raised: u64,
    enabled: u64,
    clear: RegWrite,
    trigger: RegWrite,
    on: RegWrite,
    off: RegWrite,
    signal: (RegWrite, RegWrite),
    bit: u32,
)
    requires
        m@.found(),
        ch < 4,
        call_ensures(MboxK3::ack, (m, ch), queue),
        call_ensures(MboxK3::fifo_status, (m, ch), state),
        call_ensures(MboxK3::msg_status, (m, ch), count),
        call_ensures(MboxK3::irq_status, (m,), raised),
        call_ensures(MboxK3::irq_en, (m,), enabled),
        call_ensures(MboxK3::clear_irq_pending, (m, ch), clear),
        call_ensures(MboxK3::trigger_local_irq, (m, ch), trigger),
        call_ensures(MboxK3::enable_new_msg_irq, (m, ch), on),
        call_ensures(MboxK3::disable_new_msg_irq, (m, ch), off),
        call_ensures(MboxK3::signal, (m, ch), signal),
        call_ensures(new_msg_mask, (ch,), bit),
    ensures
        ({
            let base = m@.base;
            let own = base + 0x100 + (if m@.second {
                16int
            } else {
                0int
            });
            let other = base + 0x100 + (if m@.second {
                0int
            } else {
                16int
            });
            &&& queue == base + 0x40 + 4 * ch
            &&& state == base + 0x80 + 4 * ch
            &&& count == base + 0xc0 + 4 * ch
            &&& raised == own
            &&& enabled == own + 8
            &&& clear.addr == own + 4 && clear.value == bit
            &&& trigger.addr == own && trigger.value == bit
            &&& on.addr == own + 8 && on.value == bit
            &&& off.addr == own + 12 && off.value == bit
            &&& signal.0.addr == other + 8 && signal.0.value == bit
            &&& signal.1.addr == queue && signal.1.value == 1
        }),
        ch == 0 ==> bit == 1,
        ch == 1 ==> bit == 4,
        ch == 2 ==> bit == 16,
        ch == 3 ==> bit == 64,
{
    assert(1u32 << 0u32 == 1 && 1u32 << 2u32 == 4 && 1u32 << 4u32 == 16 && 1u32 << 6u32 == 64)
        by (bit_vector);
}

/// What the registers of a mailbox say: bit 0 of a state that the queue is full, bit 1 that
/// it is empty, the low four bits of a count how many words wait, and the bit of a channel
/// that its interrupt is up or enabled.
pub proof fn law_mailbox_states(
    m: &MboxK3,
    s: u32,
    empty: bool,
    full: bool,
    n: u32,
    ch: u8,
    bit: u32,
    on: bool,
    up: bool,
    irq: u32,
    found: bool,
)
    requires
        ch < 4,
        call_ensures(MboxK3::fifo_is_empty, (m, s), empty),
        call_ensures(MboxK3::fifo_is_full, (m, s), full),
        call_ensures(MboxK3::msg_count, (m, s), n),
        call_ensures(new_msg_mask, (ch,), bit),
        call_ensures(MboxK3::irq_enabled, (m, s, ch), on),
        call_ensures(MboxK3::irq_pending_raw, (m, s, ch), up),
        call_ensures(MboxK3::irq, (m,), irq),
        call_ensures(MboxK3::is_found, (m,), found),
    ensures
        empty <==> s & 2 != 0,
        full <==> s & 1 != 0,
        n == s % 16,
        on <==> s & bit != 0,
        up <==> s & bit != 0,
        irq == m@.irq,
        found <==> m@.base > 0 && m@.base + 0x400 <= u64::MAX,
{
}

/// One round of the mailbox interrupt: where no channel is both raised and enabled, it is
/// over and whoever waits may go on, once. Otherwise each such channel is drained, in order,
/// by reading its queue and clearing its interrupt.
pub proof fn law_mailbox_interrupt(
    m: &mut MboxK3,
    raw: u32,
    enabled: u32,
    r: Option<Vec<Drain>>,
    a: &mut MboxK3,
    first: bool,
    b: &mut MboxK3,
    second: bool,
    ch: u8,
)
    requires
        old(m)@.found(),
        call_ensures(MboxK3::mbox_isr, (m, raw, enabled), r),
        *old(a) == *final(m),
        call_ensures(MboxK3::recv, (a,), first),
        *old(b) == *final(a),
        call_ensures(MboxK3::recv, (b,), second),
        ch < 4,
    ensures
        r is None <==> raw & enabled == 0,
        r is None ==> first,
        r is Some ==> first == old(m)@.served,
        !second,
        r matches Some(d) ==> {
            let own = old(m)@.base + 0x104 + (if old(m)@.second {
                16int
            } else {
                0int
            });
            &&& forall|i: int|
                0 <= i < d@.len() ==> {
                    &&& (#[trigger] d@[i]).ch < 4
                    &&& (raw & enabled) & (1u32 << (2 * d@[i].ch) as u32) != 0
                    &&& d@[i].queue == old(m)@.base + 0x40 + 4 * d@[i].ch
                    &&& d@[i].clear.addr == own
                    &&& d@[i].clear.value == 1u32 << (2 * d@[i].ch) as u32
                }
            &&& (raw & enabled) & (1u32 << (2 * ch) as u32) != 0 ==> exists|i: int|
                0 <= i < d@.len() && (#[trigger] d@[i]).ch == ch
            &&& forall|i: int, j: int|
                0 <= i < j < d@.len() ==> (#[trigger] d@[i]).ch != (#[trigger] d@[j]).ch
        },
{
    let pending = raw & enabled;
    let all = crate::chip::mailbox::raised(pending, 4);
    crate::chip::mailbox::law_drained_once(pending, 4, ch);
    if let Some(d) = r {
        assert forall|i: int| 0 <= i < d@.len() implies (#[trigger] d@[i]).ch < 4 && pending & (1u32
            << (2 * d@[i].ch) as u32) != 0 by {
            let c = all[i];
            assert(d@[i].ch == c);
            crate::chip::mailbox::law_drained_once(pending, 4, c);
            assert(all.contains(c));
        }
        if pending & (1u32 << (2 * ch) as u32) != 0 {
            let i = choose|i: int| 0 <= i < all.len() && all[i] == ch;
            assert(d@[i].ch == ch);
        }
        assert forall|i: int, j: int| 0 <= i < j < d@.len() implies (#[trigger] d@[i]).ch != (
        #[trigger] d@[j]).ch by {
            assert(all[i] != all[j]);
        }
    }
}

/// Mailboxes get the first free of two places; every word raises an interrupt then: the
/// threshold of this core's user, from 0x180 on, is cleared.
pub proof fn law_mailboxes_are_placed(
    d: &mut MboxDriver,
    base: u64,
    irq: u32,
    communicate: bool,
    r: Option<(usize, RegWrite)>,
)
    requires
        base + 0x400 <= u64::MAX,
        call_ensures(MboxDriver::probe, (d, base, irq, communicate), r),
    ensures
        r is None <==> old(d)@[0]@.base != 0 && old(d)@[1]@.base != 0,
        r is None ==> final(d)@ == old(d)@,
        r is Some ==> {
            let i = (r->0).0;
            let m = final(d)@[i as int]@;
            &&& i == (if old(d)@[0]@.base == 0 {
                0int
            } else {
                1int
            })
            &&& m.base == base && m.irq == irq && m.second == communicate
            &&& (r->0).1.addr == base + 0x180 + (if communicate {
                16int
            } else {
                0int
            })
            &&& (r->0).1.value == 0
            &&& final(d)@[1 - i] == old(d)@[1 - i]
        },
{
}

/// Interrupts of the mailboxes that were found are let through with the priority 1, with
/// the first channel enabled, and belong to their mailbox from then on.
pub proof fn law_mailbox_interrupts(
    d: &mut MboxDriver,
    r: Vec<Setup>,
    irq: u32,
    at: Option<usize>,
)
    requires
        old(d)@.len() == 2,
        old(d)@[0]@.found(),
        old(d)@[1]@.found(),
        call_ensures(MboxDriver::setup_interrupts, (d,), r),
        call_ensures(MboxDriver::instance_for_irq, (final(d), irq), at),
    ensures
        r@.len() == 2,
        forall|i: int|
            0 <= i < 2 ==> {
                &&& (#[trigger] r@[i]).irq == old(d)@[i]@.irq
                &&& r@[i].priority == 1
                &&& r@[i].enable.addr == old(d)@[i]@.base + 0x108 + (if old(d)@[i]@.second {
                    16int
                } else {
                    0int
                })
                &&& r@[i].enable.value == 1
            },
        irq == old(d)@[1]@.irq ==> at == Some(1usize),
        irq != old(d)@[1]@.irq && irq == old(d)@[0]@.irq ==> at == Some(0usize),
        irq != old(d)@[1]@.irq && irq != old(d)@[0]@.irq ==> at is None,
{
    assert(1u32 << 0u32 == 1) by (bit_vector);
    let b = old(d)@;
    reveal_with_fuel(crate::chip::mailbox::setups, 3);
    assert(b.drop_last().drop_last().len() == 0);
    assert(b.last() == b[1]);
    assert(b.drop_last().last() == b[0]);
}

/// The devices that the drivers serve.
pub proof fn law_served_devices(
    a: &K3SysTimer,
    ra: (&'static str, &'static str),
    b: &K3MsIP,
    rb: (&'static str, &'static str),
    c: &Ccu,
    rc: &'static str,
    d: &PlicK3,
    rd: &'static str,
    e: &PinctrlK3,
    re: &'static str,
    f: &PxaUartDriver,
    rf: &'static str,
    g: &MboxDriver,
    rg: &'static str,
    h: &crate::chip::ap_uart::ApUart,
    rh: &'static str,
)
    requires
        call_ensures(K3SysTimer::compatible, (a,), ra),
        call_ensures(K3MsIP::compatible, (b,), rb),
        call_ensures(Ccu::compatible, (c,), rc),
        call_ensures(PlicK3::compatible, (d,), rd),
        call_ensures(PinctrlK3::compatible, (e,), re),
        call_ensures(PxaUartDriver::compatible, (f,), rf),
        call_ensures(MboxDriver::compatible, (g,), rg),
        call_ensures(crate::chip::ap_uart::ApUart::compatible, (h,), rh),
    ensures
        ra.0@ == "spacemit,k3-systimer"@,
        ra.1@ == "riscv,clint0"@,
        rb.0@ == "spacemit,k3-systimer-msip"@,
        rb.1@ == "riscv,clint0-msip"@,
        rc@ == "spacemit,k3-ccu"@,
        rd@ == "riscv,plic0"@,
        re@ == "pinctrl-single"@,
        rf@ == "spacemit,pxa-uart0"@,
        rg@ == "spacemit,k3-mailbox"@,
        rh@ == "spacemit,k3-ap-uart"@,
{
}

} // verus!
