use rt_async_amp::channel::{ChannelId, SendError};
use rt_async_amp::client::{RecvError, RequestIds, RpcClient, Ticket};
use rt_async_amp::descriptor::{
    encode, parse, FLAG_ACALL, FLAG_ONE_WAY, FLAG_URGENT, PROTOCOL_VERSION,
};
use rt_async_amp::message::{Message, MsgType};
use rt_async_amp::rpc::{is_one_way, strip_flags, wants_notify, METHOD_INIT, NOTIFY_FLAG, ONE_WAY_FLAG};
use rt_async_amp::server::{
    empty_descriptor, Attendant, HandledKind, Notes, ProcessResult, Reply, Response, RpcError,
    RpcHandler, RpcServer, RESPONSE_DATA_MAX,
};
use rt_async_amp::service::{answer, arguments};
use rt_async_amp::shm::SharedMemory;
use rt_async_amp::stream::block_count;
use rt_async_amp::wire::Wire;

const ECHO: u64 = 0;
const ADD: u64 = 1;
const PING: u64 = 2;
const NEGATE: u64 = 3;
const SUM3: u64 = 4;
const LOG: u64 = 5;
const STOP: u64 = 6;

/// A service whose methods count from 0; the first one is never reached.
struct CalcService {
    last_log: u32,
    stopped: bool,
}

impl RpcHandler for CalcService {
    fn handle(&mut self, method: u64, msg: Message, out: &mut Response) -> Result<Reply, RpcError> {
        match method {
            ECHO => {
                let (rid, val) = arguments::<u32>(&msg)?;
                answer(out, rid, &val)
            }
            ADD => {
                let (rid, (a, b)) = arguments::<(i32, i32)>(&msg)?;
                answer(out, rid, &a.wrapping_add(b))
            }
            PING => {
                let (rid, ()) = arguments::<()>(&msg)?;
                answer(out, rid, &42u32)
            }
            NEGATE => {
                let (rid, val) = arguments::<i32>(&msg)?;
                answer(out, rid, &-val)
            }
            SUM3 => {
                let (rid, (a, b, c)) = arguments::<(i32, i32, i32)>(&msg)?;
                answer(out, rid, &(a + b + c))
            }
            LOG => {
                let (_, val) = arguments::<u32>(&msg)?;
                self.last_log = val;
                Ok(Reply::Silent)
            }
            STOP => {
                self.stopped = true;
                Ok(Reply::Silent)
            }
            _ => Ok(Reply::Silent),
        }
    }

    fn descriptor(&self) -> Vec<u8> {
        empty_descriptor()
    }
}

struct TestContext {
    shm: SharedMemory<3>,
    ids: RequestIds,
    server: RpcServer,
    client: RpcClient,
    calc: CalcService,
}

impl TestContext {
    fn new() -> Self {
        let mut shm = SharedMemory::<3>::new();
        shm.init();
        Self {
            shm,
            ids: RequestIds::new(),
            server: RpcServer::new(0),
            client: RpcClient::new(0),
            calc: CalcService { last_log: 0, stopped: false },
        }
    }

    fn process_one(&mut self) -> ProcessResult {
        self.server.process_one(&mut self.shm, &mut self.calc)
    }

    fn process_urgent(&mut self) -> ProcessResult {
        self.server.process_urgent(&mut self.shm, &mut self.calc)
    }

    fn poll(&mut self) -> usize {
        self.client.poll_responses(&mut self.shm)
    }
}

#[test]
fn test_call_add() {
    let mut ctx = TestContext::new();
    let t = ctx.client.call(&mut ctx.shm, &mut ctx.ids, ADD, &(3i32, 4i32)).unwrap();
    ctx.process_one();
    ctx.poll();
    let val: i32 = ctx.client.recv_for(t.rid).unwrap().unwrap();
    assert_eq!(val, 7);
}

#[test]
fn test_call_ping() {
    let mut ctx = TestContext::new();
    let t = ctx.client.call(&mut ctx.shm, &mut ctx.ids, PING, &()).unwrap();
    ctx.process_one();
    ctx.poll();
    let val: u32 = ctx.client.recv_for(t.rid).unwrap().unwrap();
    assert_eq!(val, 42);
}

#[test]
fn test_call_handled_kind_notify() {
    let mut ctx = TestContext::new();
    let _t = ctx.client.call(&mut ctx.shm, &mut ctx.ids, PING, &()).unwrap();
    let result = ctx.process_one();
    assert!(matches!(result, ProcessResult::Handled(HandledKind::Notify)));
}

#[test]
fn test_call_poll_handled_kind_quiet() {
    let mut ctx = TestContext::new();
    let _t = ctx.client.call_poll(&mut ctx.shm, &mut ctx.ids, ECHO, &1u32).unwrap();
    let result = ctx.process_one();
    assert!(matches!(result, ProcessResult::Handled(HandledKind::Quiet)));
}

#[test]
fn test_call_auto_notifies_when_not_busy() {
    let mut ctx = TestContext::new();
    let t = ctx.client.call(&mut ctx.shm, &mut ctx.ids, ECHO, &99u32).unwrap();
    assert!(t.doorbell);
}

#[test]
fn test_call_skips_notify_when_busy() {
    let mut ctx = TestContext::new();
    ctx.shm.set_busy();
    let t = ctx.client.call(&mut ctx.shm, &mut ctx.ids, ECHO, &99u32).unwrap();
    assert!(!t.doorbell);
    ctx.shm.clear_busy();
}

#[test]
fn test_send_auto_notifies_when_not_busy() {
    let mut ctx = TestContext::new();
    let t = ctx.client.send(&mut ctx.shm, &mut ctx.ids, LOG, &42u32).unwrap();
    assert!(t.doorbell);
}

#[test]
fn test_send_skips_notify_when_busy() {
    let mut ctx = TestContext::new();
    ctx.shm.set_busy();
    let t = ctx.client.send(&mut ctx.shm, &mut ctx.ids, LOG, &42u32).unwrap();
    assert!(!t.doorbell);
    ctx.shm.clear_busy();
}

#[test]
fn test_urgent_auto_notifies_when_not_busy() {
    let mut ctx = TestContext::new();
    let t = ctx.client.urgent(&mut ctx.shm, &mut ctx.ids, STOP, &()).unwrap();
    assert!(t.doorbell);
}

#[test]
fn test_urgent_skips_notify_when_busy() {
    let mut ctx = TestContext::new();
    ctx.shm.set_busy();
    let t = ctx.client.urgent(&mut ctx.shm, &mut ctx.ids, STOP, &()).unwrap();
    assert!(!t.doorbell);
    ctx.shm.clear_busy();
}

#[test]
fn test_send_one_way() {
    let mut ctx = TestContext::new();
    ctx.client.send(&mut ctx.shm, &mut ctx.ids, LOG, &1234u32).unwrap();
    let result = ctx.process_one();
    assert!(matches!(result, ProcessResult::Handled(HandledKind::OneWay)));
    assert_eq!(ctx.calc.last_log, 1234);
}

#[test]
fn test_send_no_response_in_channel() {
    let mut ctx = TestContext::new();
    ctx.client.send(&mut ctx.shm, &mut ctx.ids, LOG, &42u32).unwrap();
    ctx.process_one();
    assert_eq!(ctx.poll(), 0);
    assert_eq!(ctx.client.buffered(), 0);
}

#[test]
fn test_urgent_stop() {
    let mut ctx = TestContext::new();
    ctx.client.urgent(&mut ctx.shm, &mut ctx.ids, STOP, &()).unwrap();
    let result = ctx.process_urgent();
    assert!(matches!(result, ProcessResult::Handled(HandledKind::OneWay)));
    assert!(ctx.calc.stopped);
}

#[test]
fn test_urgent_channel_separate() {
    let mut ctx = TestContext::new();
    ctx.client.urgent(&mut ctx.shm, &mut ctx.ids, STOP, &()).unwrap();
    assert!(matches!(ctx.process_one(), ProcessResult::NoMessage));
    assert!(ctx.server.has_urgent(&ctx.shm));
    ctx.process_urgent();
    ctx.process_urgent();
    assert!(!ctx.server.has_urgent(&ctx.shm));
}

#[test]
fn test_process_result_no_message() {
    let mut ctx = TestContext::new();
    assert!(matches!(ctx.process_one(), ProcessResult::NoMessage));
    assert!(matches!(ctx.process_urgent(), ProcessResult::NoMessage));
}

#[test]
fn test_not_rpc() {
    let mut ctx = TestContext::new();
    ctx.shm.sender(ChannelId::new(0)).unwrap().try_send(&Message::notification(99)).unwrap();

    match ctx.process_one() {
        ProcessResult::NotRpc(msg) => assert_eq!(msg.as_notification(), Some(99)),
        other => panic!("expected NotRpc, got {:?}", other),
    }
}

#[test]
fn test_process_all_with_urgent_first() {
    let mut ctx = TestContext::new();
    ctx.client.call(&mut ctx.shm, &mut ctx.ids, ECHO, &5u32).unwrap();
    ctx.client.urgent(&mut ctx.shm, &mut ctx.ids, STOP, &()).unwrap();

    let count = ctx.server.process_all(&mut ctx.shm, &mut ctx.calc, &mut Notes::new());
    assert_eq!(count, 2);
    assert!(ctx.calc.stopped);
}

#[test]
fn test_process_all_quiet_no_notify() {
    let mut ctx = TestContext::new();
    ctx.client.call_poll(&mut ctx.shm, &mut ctx.ids, ECHO, &10u32).unwrap();
    ctx.client.call_poll(&mut ctx.shm, &mut ctx.ids, PING, &()).unwrap();

    let mut notes = Notes::new();
    let count = ctx.server.process_all(&mut ctx.shm, &mut ctx.calc, &mut notes);
    assert_eq!(count, 2);
    assert_eq!(notes.bells, 0);
}

#[test]
fn test_request_ids_are_unique() {
    let mut ctx = TestContext::new();
    let rid1 = ctx.client.call(&mut ctx.shm, &mut ctx.ids, PING, &()).unwrap().rid;
    let rid2 = ctx.client.call(&mut ctx.shm, &mut ctx.ids, PING, &()).unwrap().rid;
    let rid3 = ctx.client.call(&mut ctx.shm, &mut ctx.ids, PING, &()).unwrap().rid;
    assert_ne!(rid1, rid2);
    assert_ne!(rid2, rid3);
    assert_ne!(rid1, rid3);
}

#[test]
fn test_has_pending_and_urgent() {
    let mut ctx = TestContext::new();
    let _ = ctx.process_one();
    assert!(!ctx.server.has_pending(&ctx.shm));
    assert!(!ctx.server.has_urgent(&ctx.shm));

    ctx.shm.sender(ChannelId::new(0)).unwrap()
        .try_send(&Message::request(1, 0, &()).unwrap()).unwrap();
    assert!(ctx.server.has_pending(&ctx.shm));
    assert!(!ctx.server.has_urgent(&ctx.shm));

    ctx.shm.sender(ChannelId::new(2)).unwrap()
        .try_send(&Message::request(2, 6, &()).unwrap()).unwrap();
    assert!(ctx.server.has_urgent(&ctx.shm));
}

#[test]
fn test_method_id_constants() {
    assert_eq!(ECHO, 0);
    assert_eq!(ADD, 1);
    assert_eq!(PING, 2);
    assert_eq!(NEGATE, 3);
    assert_eq!(SUM3, 4);
    assert_eq!(LOG, 5);
    assert_eq!(STOP, 6);
}

/// A client whose methods have names and types.
struct TestRpc {
    client: RpcClient,
}

impl TestRpc {
    fn new(addr: usize) -> Self {
        TestRpc { client: RpcClient::new(addr) }
    }

    fn add(&self, ctx: &mut TestContext, a: i32, b: i32) -> Result<Ticket, SendError> {
        self.client.call(&mut ctx.shm, &mut ctx.ids, ADD, &(a, b))
    }

    fn add_poll(&self, ctx: &mut TestContext, a: i32, b: i32) -> Result<Ticket, SendError> {
        self.client.call_poll(&mut ctx.shm, &mut ctx.ids, ADD, &(a, b))
    }

    fn ping(&self, ctx: &mut TestContext) -> Result<Ticket, SendError> {
        self.client.call(&mut ctx.shm, &mut ctx.ids, PING, &())
    }

    fn log(&self, ctx: &mut TestContext, msg: u32) -> Result<Ticket, SendError> {
        self.client.send(&mut ctx.shm, &mut ctx.ids, LOG, &msg)
    }

    fn stop(&self, ctx: &mut TestContext) -> Result<Ticket, SendError> {
        self.client.urgent(&mut ctx.shm, &mut ctx.ids, STOP, &())
    }
}

#[test]
fn test_typed_client_add() {
    let mut ctx = TestContext::new();
    let mut typed = TestRpc::new(0);
    let t = typed.add(&mut ctx, 3i32, 4i32).unwrap();
    ctx.process_one();
    typed.client.poll_responses(&mut ctx.shm);
    let val: i32 = typed.client.recv_for(t.rid).unwrap().unwrap();
    assert_eq!(val, 7);
}

#[test]
fn test_typed_client_add_poll() {
    let mut ctx = TestContext::new();
    let mut typed = TestRpc::new(0);
    let t = typed.add_poll(&mut ctx, 10i32, 20i32).unwrap();
    ctx.process_one();
    typed.client.poll_responses(&mut ctx.shm);
    let val: i32 = typed.client.recv_for(t.rid).unwrap().unwrap();
    assert_eq!(val, 30);
}

#[test]
fn test_typed_client_ping() {
    let mut ctx = TestContext::new();
    let mut typed = TestRpc::new(0);
    let t = typed.ping(&mut ctx).unwrap();
    ctx.process_one();
    typed.client.poll_responses(&mut ctx.shm);
    let val: u32 = typed.client.recv_for(t.rid).unwrap().unwrap();
    assert_eq!(val, 42);
}

#[test]
fn test_typed_client_send() {
    let mut ctx = TestContext::new();
    let typed = TestRpc::new(0);
    typed.log(&mut ctx, 1234u32).unwrap();
    let result = ctx.process_one();
    assert!(matches!(result, ProcessResult::Handled(HandledKind::OneWay)));
    assert_eq!(ctx.calc.last_log, 1234);
}

#[test]
fn test_typed_client_urgent() {
    let mut ctx = TestContext::new();
    let typed = TestRpc::new(0);
    typed.stop(&mut ctx).unwrap();
    let result = ctx.process_urgent();
    assert!(matches!(result, ProcessResult::Handled(HandledKind::OneWay)));
    assert!(ctx.calc.stopped);
}

/// A service with one method of each kind.
struct SmallService;

impl SmallService {
    fn table() -> Vec<u8> {
        encode(
            &[1, 2, 3, 4, 5],
            &[0, 0, FLAG_ONE_WAY, FLAG_ONE_WAY | FLAG_URGENT, FLAG_ACALL],
            &["ECHO", "ADD", "LOG", "STOP", "KICK"],
        )
    }
}

impl RpcHandler for SmallService {
    fn handle(&mut self, method: u64, msg: Message, out: &mut Response) -> Result<Reply, RpcError> {
        match method {
            1 => {
                let (rid, val) = arguments::<u32>(&msg)?;
                answer(out, rid, &val)
            }
            2 => {
                let (rid, (a, b)) = arguments::<(i32, i32)>(&msg)?;
                answer(out, rid, &a.wrapping_add(b))
            }
            3 => {
                arguments::<u32>(&msg)?;
                Ok(Reply::Silent)
            }
            5 => {
                arguments::<u32>(&msg)?;
                Ok(Reply::Deferred)
            }
            _ => Ok(Reply::Silent),
        }
    }

    fn descriptor(&self) -> Vec<u8> {
        SmallService::table()
    }
}

/// A service whose table takes more than one message.
struct LongNameService;

impl LongNameService {
    fn table() -> Vec<u8> {
        encode(
            &[1, 2, 3, 4, 5, 6],
            &[0; 6],
            &[
                "SENSOR_READ_TEMPERATURE_WITH_CALIBRATION_OFFSET_AAAA",
                "SENSOR_READ_PRESSURE_WITH_TEMPERATURE_COMPENSATION_BB",
                "ACTUATOR_SET_SERVO_ANGLE_WITH_VELOCITY_LIMIT_CCCCCC",
                "TELEMETRY_STREAM_CHUNKED_TRANSFER_DIAGNOSTIC_DDDDDDDD",
                "WATCHDOG_FEED_WITH_DEADLINE_MONITORING_EEEEEEEEEEEEEE",
                "CONFIG_BLOB_EXPORT_INCLUDES_ALL_FIELDS_FFFFFFFFFFFFFF",
            ],
        )
    }
}

impl RpcHandler for LongNameService {
    fn handle(&mut self, method: u64, msg: Message, out: &mut Response) -> Result<Reply, RpcError> {
        if method >= 1 && method <= 6 {
            let (rid, n) = arguments::<u32>(&msg)?;
            answer(out, rid, &n)
        } else {
            Ok(Reply::Silent)
        }
    }

    fn descriptor(&self) -> Vec<u8> {
        LongNameService::table()
    }
}

/// A service without a table.
struct Manual;

impl RpcHandler for Manual {
    fn handle(&mut self, _method: u64, _msg: Message, _out: &mut Response) -> Result<Reply, RpcError> {
        Ok(Reply::Silent)
    }

    fn descriptor(&self) -> Vec<u8> {
        empty_descriptor()
    }
}

#[test]
fn descriptor_const_matches_table() {
    let table = SmallService::table();
    let d = parse(&table).expect("the table can be parsed");
    assert_eq!(d.proto(), PROTOCOL_VERSION);
    let ms = d.methods().collect();
    assert_eq!(ms.len(), 5);
    assert_eq!(ms[0].name, "ECHO");
    assert_eq!(ms[0].mid, 1);
    assert_eq!(ms[0].kind_name(), "call");
    assert_eq!(ms[1].name, "ADD");
    assert_eq!(ms[2].name, "LOG");
    assert!(ms[2].is_one_way() && !ms[2].is_urgent());
    assert_eq!(ms[2].kind_name(), "send");
    assert_eq!(ms[3].name, "STOP");
    assert!(ms[3].is_urgent());
    assert_eq!(ms[3].kind_name(), "urgent");
    assert_eq!(ms[4].name, "KICK");
    assert!(ms[4].is_deferred());
    assert_eq!(ms[4].kind_name(), "acall");
}

#[test]
fn discover_roundtrip_single_block() {
    let mut ctx = TestContext::new();
    let t = ctx.client.discover(&mut ctx.shm, &mut ctx.ids).unwrap();
    assert!(matches!(
        ctx.server.process_one(&mut ctx.shm, &mut SmallService),
        ProcessResult::Handled(HandledKind::Notify)
    ));
    assert_eq!(ctx.shm.receiver(ChannelId::new(1)).unwrap().len(), 1);
    assert_eq!(ctx.poll(), 1);
    let bytes = ctx.client.recv_raw_for(t.rid).expect("the response is there");
    assert!(bytes.starts_with(&SmallService::table()));
    let d = parse(bytes).expect("the table can be parsed");
    assert_eq!(d.method_count(), 5);
}

#[test]
fn discover_roundtrip_multi_block() {
    let mut ctx = TestContext::new();
    let table = LongNameService::table();
    assert!(table.len() > 255, "the table takes more than one message");

    let t = ctx.client.discover(&mut ctx.shm, &mut ctx.ids).unwrap();
    assert!(matches!(
        ctx.server.process_one(&mut ctx.shm, &mut LongNameService),
        ProcessResult::Handled(HandledKind::Notify)
    ));
    assert!(ctx.poll() >= 1);
    let bytes = ctx.client.recv_raw_for(t.rid).expect("the response is there");
    assert_eq!(bytes.len(), table.len());
    assert_eq!(bytes, table.as_slice());
    let d = parse(bytes).unwrap();
    assert_eq!(d.method_count(), 6);
    assert_eq!(
        d.methods().next().unwrap().name,
        "SENSOR_READ_TEMPERATURE_WITH_CALIBRATION_OFFSET_AAAA"
    );
}

#[test]
fn discover_interleaved_with_calls() {
    let mut ctx = TestContext::new();
    let disc = ctx.client.discover(&mut ctx.shm, &mut ctx.ids).unwrap();
    let echo = ctx.client.call(&mut ctx.shm, &mut ctx.ids, 1, &7u32).unwrap();
    ctx.server.process_one(&mut ctx.shm, &mut SmallService);
    ctx.server.process_one(&mut ctx.shm, &mut SmallService);
    assert_eq!(ctx.poll(), 2);

    let bytes = ctx.client.recv_raw_for(disc.rid).unwrap();
    assert_eq!(parse(bytes).unwrap().method_count(), 5);
    assert_eq!(ctx.client.recv_for::<u32>(echo.rid), Ok(Some(7)));
}

#[test]
fn manual_handler_gets_empty_descriptor() {
    let mut ctx = TestContext::new();
    let t = ctx.client.discover(&mut ctx.shm, &mut ctx.ids).unwrap();
    assert!(matches!(
        ctx.server.process_one(&mut ctx.shm, &mut Manual),
        ProcessResult::Handled(HandledKind::Notify)
    ));
    ctx.poll();
    let bytes = ctx.client.recv_raw_for(t.rid).unwrap();
    let d = parse(bytes).expect("the empty table can be parsed");
    assert_eq!(d.method_count(), 0);
}

/// A service that can be asked for too much.
struct TargetService;

impl RpcHandler for TargetService {
    fn handle(&mut self, method: u64, msg: Message, out: &mut Response) -> Result<Reply, RpcError> {
        match method {
            1 => {
                let (rid, v) = arguments::<u32>(&msg)?;
                answer(out, rid, &v)
            }
            2 => {
                let (rid, n) = arguments::<u32>(&msg)?;
                answer(out, rid, &vec![0xABu8; n as usize])
            }
            _ => Ok(Reply::Silent),
        }
    }

    fn descriptor(&self) -> Vec<u8> {
        empty_descriptor()
    }
}

/// A service that answers later.
struct AsyncService;

impl RpcHandler for AsyncService {
    fn handle(&mut self, method: u64, msg: Message, _out: &mut Response) -> Result<Reply, RpcError> {
        if method == 1 {
            arguments::<u32>(&msg)?;
            Ok(Reply::Deferred)
        } else {
            Ok(Reply::Silent)
        }
    }

    fn descriptor(&self) -> Vec<u8> {
        empty_descriptor()
    }
}

#[test]
fn deserialize_failed_gets_poison() {
    let mut ctx = TestContext::new();
    let mut p = [0u8; 255];
    p[0..8].copy_from_slice(&0x7777_u64.to_le_bytes());
    p[8..16].copy_from_slice(&1_u64.to_le_bytes());
    p[16..].fill(0xFF);
    ctx.shm
        .sender(ChannelId::new(0))
        .unwrap()
        .try_send(&Message::raw(MsgType::Request.code(), p))
        .unwrap();

    assert!(matches!(
        ctx.server.process_one(&mut ctx.shm, &mut TargetService),
        ProcessResult::Unhandled(1)
    ));
    assert_eq!(ctx.poll(), 1);
    assert_eq!(ctx.client.recv_for::<u32>(0x7777), Err(RecvError::DeserializeFailed));
}

#[test]
fn unknown_method_gets_poison() {
    let mut ctx = TestContext::new();
    let t = ctx.client.call(&mut ctx.shm, &mut ctx.ids, 999, &()).unwrap();
    assert!(matches!(
        ctx.server.process_one(&mut ctx.shm, &mut TargetService),
        ProcessResult::Unhandled(999)
    ));
    assert_eq!(ctx.poll(), 1);
    assert_eq!(ctx.client.recv_for::<u32>(t.rid), Err(RecvError::DeserializeFailed));
}

#[test]
fn oversized_response_gets_poison() {
    let mut ctx = TestContext::new();
    let t = ctx.client.call(&mut ctx.shm, &mut ctx.ids, 2, &3000u32).unwrap();
    assert!(matches!(
        ctx.server.process_one(&mut ctx.shm, &mut TargetService),
        ProcessResult::Unhandled(2)
    ));
    assert_eq!(ctx.poll(), 1);
    assert_eq!(ctx.client.recv_for::<Vec<u8>>(t.rid), Err(RecvError::DeserializeFailed));
}

#[test]
fn poison_does_not_wedge_fifo() {
    let mut ctx = TestContext::new();
    let _bad = ctx.client.call(&mut ctx.shm, &mut ctx.ids, 999, &()).unwrap();
    let _ok = ctx.client.call(&mut ctx.shm, &mut ctx.ids, 1, &7u32).unwrap();
    ctx.server.process_one(&mut ctx.shm, &mut TargetService);
    ctx.server.process_one(&mut ctx.shm, &mut TargetService);

    assert_eq!(ctx.poll(), 2);
    assert_eq!(ctx.client.recv::<u32>(), Err(RecvError::DeserializeFailed));
    assert_eq!(ctx.client.recv::<u32>(), Ok(Some(7)));
    assert_eq!(ctx.client.recv::<u32>(), Ok(None));
}

#[test]
fn acall_deferred_gets_no_poison() {
    let mut ctx = TestContext::new();
    let t = ctx.client.call(&mut ctx.shm, &mut ctx.ids, 1, &5u32).unwrap();
    assert!(matches!(
        ctx.server.process_one(&mut ctx.shm, &mut AsyncService),
        ProcessResult::Handled(HandledKind::Quiet)
    ));
    assert_eq!(ctx.poll(), 0);
    assert_eq!(ctx.client.recv_for::<u32>(t.rid), Ok(None));
    assert_eq!(ctx.shm.receiver(ChannelId::new(1)).unwrap().len(), 0);
}

#[test]
fn one_way_unknown_method_stays_silent() {
    let mut ctx = TestContext::new();
    ctx.client.send(&mut ctx.shm, &mut ctx.ids, 999, &()).unwrap();
    assert!(matches!(
        ctx.server.process_one(&mut ctx.shm, &mut TargetService),
        ProcessResult::Handled(HandledKind::OneWay)
    ));
    assert_eq!(ctx.poll(), 0);
}

/// A service with results of any length.
struct BlobService;

impl RpcHandler for BlobService {
    fn handle(&mut self, method: u64, msg: Message, out: &mut Response) -> Result<Reply, RpcError> {
        match method {
            1 => {
                let (rid, n) = arguments::<u32>(&msg)?;
                let blob: Vec<u8> = (0..n).map(|i| (i % 251) as u8).collect();
                answer(out, rid, &blob)
            }
            2 => {
                let (rid, v) = arguments::<u32>(&msg)?;
                answer(out, rid, &v)
            }
            _ => Ok(Reply::Silent),
        }
    }

    fn descriptor(&self) -> Vec<u8> {
        empty_descriptor()
    }
}

fn resp_blocks(ctx: &mut TestContext) -> usize {
    ctx.shm.receiver(ChannelId::new(1)).unwrap().len()
}

fn varint_len(mut v: u64) -> usize {
    let mut n = 1;
    while v >= 128 {
        v >>= 7;
        n += 1;
    }
    n
}

fn roundtrip(ctx: &mut TestContext, n: u32) {
    let t = ctx.client.call(&mut ctx.shm, &mut ctx.ids, 1, &n).unwrap();
    assert!(matches!(
        ctx.server.process_one(&mut ctx.shm, &mut BlobService),
        ProcessResult::Handled(HandledKind::Notify)
    ));

    let payload_len = 8 + varint_len(n as u64) + n as usize;
    let expect_blocks = if payload_len <= 255 {
        1
    } else {
        block_count(payload_len).expect("a frame can be formed")
    };
    assert_eq!(resp_blocks(ctx), expect_blocks, "n={n} payload {payload_len}B");

    assert_eq!(ctx.poll(), 1);
    let v: Vec<u8> = ctx.client.recv_for(t.rid).unwrap().unwrap();
    assert_eq!(v.len(), n as usize, "n={n}");
    for (i, b) in v.iter().enumerate() {
        assert_eq!(*b, (i % 251) as u8, "n={n} byte {i}");
    }
}

#[test]
fn single_block_small() {
    let mut ctx = TestContext::new();
    roundtrip(&mut ctx, 10);
}

#[test]
fn single_block_boundary_255() {
    let mut ctx = TestContext::new();
    roundtrip(&mut ctx, 245);
}

#[test]
fn stream_boundary_256() {
    let mut ctx = TestContext::new();
    roundtrip(&mut ctx, 246);
}

#[test]
fn stream_max_8_blocks() {
    let mut ctx = TestContext::new();
    roundtrip(&mut ctx, 2026);
}

#[test]
fn over_limit_gets_poison() {
    let mut ctx = TestContext::new();
    let t = ctx.client.call(&mut ctx.shm, &mut ctx.ids, 1, &2027u32).unwrap();
    assert!(matches!(
        ctx.server.process_one(&mut ctx.shm, &mut BlobService),
        ProcessResult::Unhandled(1)
    ));
    assert_eq!(ctx.poll(), 1);
    assert_eq!(ctx.client.recv_for::<Vec<u8>>(t.rid), Err(RecvError::DeserializeFailed));
}

#[test]
fn interleaved_single_and_stream() {
    let mut ctx = TestContext::new();
    let s = ctx.client.call(&mut ctx.shm, &mut ctx.ids, 2, &1234u32).unwrap();
    let l = ctx.client.call(&mut ctx.shm, &mut ctx.ids, 1, &600u32).unwrap();
    let s2 = ctx.client.call(&mut ctx.shm, &mut ctx.ids, 2, &5678u32).unwrap();
    ctx.server.process_one(&mut ctx.shm, &mut BlobService);
    ctx.server.process_one(&mut ctx.shm, &mut BlobService);
    ctx.server.process_one(&mut ctx.shm, &mut BlobService);

    assert_eq!(ctx.poll(), 3);
    assert_eq!(ctx.client.recv_for::<u32>(s.rid), Ok(Some(1234)));
    let big: Vec<u8> = ctx.client.recv_for(l.rid).unwrap().unwrap();
    assert_eq!(big.len(), 600);
    assert_eq!(&big[..8], &[0, 1, 2, 3, 4, 5, 6, 7]);
    assert_eq!(ctx.client.recv_for::<u32>(s2.rid), Ok(Some(5678)));
}

#[test]
fn consecutive_large_responses() {
    let mut ctx = TestContext::new();
    let mut rids = Vec::new();
    for i in 1..=5u32 {
        rids.push(ctx.client.call(&mut ctx.shm, &mut ctx.ids, 1, &(i * 300)).unwrap().rid);
    }
    for _ in 0..5 {
        ctx.server.process_one(&mut ctx.shm, &mut BlobService);
    }
    assert!(resp_blocks(&mut ctx) >= 5);
    assert_eq!(ctx.poll(), 5);
    for (i, rid) in rids.iter().enumerate() {
        let v: Vec<u8> = ctx.client.recv_for(*rid).unwrap().unwrap();
        assert_eq!(v.len(), (i + 1) * 300);
    }
}

/// A service that looks at a request and refuses it.
struct Watcher;

impl RpcHandler for Watcher {
    fn handle(&mut self, method: u64, msg: Message, _out: &mut Response) -> Result<Reply, RpcError> {
        let (rid, _mid, a): (u64, u64, (u64,)) = msg.as_request().unwrap();
        assert_eq!(method, 3);
        assert_eq!(rid, 0xBB01);
        assert_eq!(a, (7,));
        Ok(Reply::Silent)
    }

    fn descriptor(&self) -> Vec<u8> {
        empty_descriptor()
    }
}

#[test]
fn unroll_in_process_channel_dispatches() {
    let mut ctx = TestContext::new();
    let req = Message::request(0xBB01, 3, &(7u64,)).unwrap();
    ctx.shm.sender(ChannelId::new(0)).unwrap().try_send(&req).unwrap();
    match ctx.server.process_one(&mut ctx.shm, &mut Watcher) {
        ProcessResult::Unhandled(3) => {}
        other => panic!("the request is consumed and refused, got {other:?}"),
    }
}

#[test]
fn calls_of_every_shape_are_answered_in_order() {
    let mut ctx = TestContext::new();
    ctx.client.call(&mut ctx.shm, &mut ctx.ids, NEGATE, &5i32).unwrap();
    ctx.client.send(&mut ctx.shm, &mut ctx.ids, LOG, &77u32).unwrap();
    ctx.client.call(&mut ctx.shm, &mut ctx.ids, SUM3, &(1i32, 2i32, 3i32)).unwrap();

    let mut notes = Notes::new();
    let count = ctx.server.process_all(&mut ctx.shm, &mut ctx.calc, &mut notes);
    assert_eq!(count, 3);
    assert_eq!(notes.bells, 2);
    assert_eq!(ctx.calc.last_log, 77);

    ctx.poll();
    assert_eq!(ctx.client.recv::<i32>(), Ok(Some(-5)));
    assert_eq!(ctx.client.recv::<i32>(), Ok(Some(6)));
    assert_eq!(ctx.client.recv::<i32>(), Ok(None));
}

/// Looks how many responses are in the window at each doorbell.
struct Bell {
    responses: Vec<usize>,
    others: Vec<u32>,
}

impl Attendant for Bell {
    fn on_notify(&mut self, shm: &SharedMemory<3>) {
        self.responses.push(shm.channel_unchecked(ChannelId::new(1)).len());
    }

    fn on_other(&mut self, msg: Message) {
        self.others.push(msg.as_notification().unwrap());
    }
}

#[test]
fn the_doorbell_rings_right_after_each_response() {
    let mut ctx = TestContext::new();
    ctx.client.call(&mut ctx.shm, &mut ctx.ids, PING, &()).unwrap();
    ctx.shm.sender(ChannelId::new(0)).unwrap().try_send(&Message::notification(8)).unwrap();
    ctx.client.call(&mut ctx.shm, &mut ctx.ids, PING, &()).unwrap();
    ctx.client.call(&mut ctx.shm, &mut ctx.ids, PING, &()).unwrap();
    let mut bell = Bell { responses: Vec::new(), others: Vec::new() };
    assert_eq!(ctx.server.process_all(&mut ctx.shm, &mut ctx.calc, &mut bell), 3);
    assert_eq!(bell.responses, vec![1, 2, 3]);
    assert_eq!(bell.others, vec![8]);
}

#[test]
fn taking_a_response_keeps_the_order_of_the_others() {
    let mut ctx = TestContext::new();
    for (rid, v) in [(1u64, 10u32), (2, 20), (3, 30)] {
        ctx.shm.sender(ChannelId::new(1)).unwrap()
            .try_send(&Message::response(rid, &v).unwrap()).unwrap();
    }
    assert_eq!(ctx.poll(), 3);
    assert_eq!(ctx.client.recv_for::<u32>(1), Ok(Some(10)));
    assert_eq!(ctx.client.recv::<u32>(), Ok(Some(20)));
    assert_eq!(ctx.client.recv::<u32>(), Ok(Some(30)));
    assert_eq!(ctx.client.recv::<u32>(), Ok(None));
}

#[test]
fn responses_can_be_taken_out_of_order() {
    let mut ctx = TestContext::new();
    let a = ctx.client.call(&mut ctx.shm, &mut ctx.ids, ADD, &(10i32, 0i32)).unwrap();
    let b = ctx.client.call(&mut ctx.shm, &mut ctx.ids, ADD, &(20i32, 0i32)).unwrap();
    ctx.server.process_all(&mut ctx.shm, &mut ctx.calc, &mut Notes::new());
    ctx.poll();
    assert_eq!(ctx.client.recv_for::<i32>(b.rid), Ok(Some(20)));
    assert_eq!(ctx.client.recv_for::<i32>(a.rid), Ok(Some(10)));
}

#[test]
fn two_services_share_a_window() {
    let mut ctx = TestContext::new();
    let a = ctx.client.call(&mut ctx.shm, &mut ctx.ids, ADD, &(1i32, 2i32)).unwrap();
    let b = ctx.client.call(&mut ctx.shm, &mut ctx.ids, 1, &0xDEADu32).unwrap();
    ctx.process_one();
    ctx.server.process_one(&mut ctx.shm, &mut SmallService);
    ctx.poll();
    assert_eq!(ctx.client.recv_for::<i32>(a.rid), Ok(Some(3)));
    assert_eq!(ctx.client.recv_for::<u32>(b.rid), Ok(Some(0xDEAD)));
}

#[test]
fn the_reserved_method_is_never_handed_on() {
    let mut ctx = TestContext::new();
    let t = ctx.client.call_poll(&mut ctx.shm, &mut ctx.ids, METHOD_INIT, &42u32).unwrap();
    ctx.process_one();
    ctx.poll();
    let bytes = ctx.client.recv_raw_for(t.rid).unwrap();
    assert_eq!(&bytes[..3], empty_descriptor().as_slice());
}

#[test]
fn flags_are_read_and_stripped() {
    let m = 7 | NOTIFY_FLAG | ONE_WAY_FLAG;
    assert_eq!(strip_flags(m), 7);
    assert!(wants_notify(m) && is_one_way(m));
    assert!(!wants_notify(7) && !is_one_way(7));
}

#[test]
fn a_client_keeps_eight_responses_and_leaves_the_rest() {
    let mut ctx = TestContext::new();
    for i in 0..10i32 {
        ctx.client.call(&mut ctx.shm, &mut ctx.ids, ADD, &(i, 0i32)).unwrap();
    }
    ctx.server.process_all(&mut ctx.shm, &mut ctx.calc, &mut Notes::new());
    assert_eq!(ctx.poll(), 8);
    assert_eq!(ctx.client.buffered(), 8);
    assert_eq!(ctx.client.recv::<i32>(), Ok(Some(0)));
    assert_eq!(ctx.poll(), 1);
    for i in 1..9i32 {
        assert_eq!(ctx.client.recv::<i32>(), Ok(Some(i)));
    }
    assert_eq!(ctx.poll(), 1);
    assert_eq!(ctx.client.recv::<i32>(), Ok(Some(9)));
}

#[test]
fn a_full_channel_refuses_a_call() {
    let mut ctx = TestContext::new();
    for _ in 0..127 {
        ctx.client.send(&mut ctx.shm, &mut ctx.ids, LOG, &1u32).unwrap();
    }
    assert_eq!(ctx.client.send(&mut ctx.shm, &mut ctx.ids, LOG, &1u32), Err(SendError::Full));
    let args = vec![0u8; 300];
    assert_eq!(ctx.client.send(&mut ctx.shm, &mut ctx.ids, LOG, &args), Err(SendError::Invalid));
}

#[test]
fn a_response_that_finds_no_room_is_counted() {
    let mut ctx = TestContext::new();
    for i in 0..127 {
        ctx.shm.sender(ChannelId::new(1)).unwrap().try_send(&Message::notification(i)).unwrap();
    }
    ctx.client.call(&mut ctx.shm, &mut ctx.ids, PING, &()).unwrap();
    assert_eq!(ctx.server.resp_send_fails(), 0);
    ctx.process_one();
    assert_eq!(ctx.server.resp_send_fails(), 1);
}

#[test]
fn truth_values_travel() {
    let mut b = Vec::new();
    for v in [true, false] {
        v.put(&mut b);
    }
    assert_eq!(b, vec![1, 0]);
    assert_eq!(bool::take(&b, 0), Some((true, 1)));
    assert_eq!(bool::take(&b, 1), Some((false, 2)));
    assert_eq!(bool::take(&b, 2), None);
    assert_eq!(bool::take(&[0xff], 0), None);
}

#[test]
fn request_numbers_start_at_one() {
    let mut ids = RequestIds::new();
    assert_eq!(ids.take(), 1);
    assert_eq!(ids.take(), 2);
}

#[test]
fn a_response_knows_its_request() {
    let mut out = Response::empty();
    assert!(!out.is_empty());
    assert_eq!(out.len(), 0);
    assert_eq!(out.rid(), None);
    assert_eq!(out.write(5, &300u32), Ok(()));
    assert!(!out.is_empty());
    assert_eq!(out.rid(), Some(5));
    assert_eq!(out.bytes(), &[5, 0, 0, 0, 0, 0, 0, 0, 0xac, 2]);
    assert_eq!(out.len(), 10);
    assert_eq!(out.write_raw(1, &vec![0; RESPONSE_DATA_MAX + 1]), Err(RpcError::ResponseTooLarge));
    assert_eq!(RpcError::ResponseTooLarge.describe(), "response exceeds message size limit");
    assert_eq!(RpcError::DeserializeFailed.describe(), "request deserialization failed");
}

#[test]
fn other_channels_can_be_used() {
    let mut ctx = TestContext::new();
    let mut server = RpcServer::with_channels(9, ChannelId::new(2), ChannelId::new(1), ChannelId::new(0));
    let client = RpcClient::with_channels(9, ChannelId::new(2), ChannelId::new(1), ChannelId::new(0));
    assert_eq!(server.shm_addr(), 9);
    assert_eq!(client.shm_addr(), 9);
    client.call(&mut ctx.shm, &mut ctx.ids, PING, &()).unwrap();
    assert_eq!(ctx.shm.receiver(ChannelId::new(2)).unwrap().len(), 1);
    assert!(matches!(
        server.process_one(&mut ctx.shm, &mut ctx.calc),
        ProcessResult::Handled(HandledKind::Notify)
    ));
}

#[test]
fn results_and_refusals_come_out_behind_those_that_wait() {
    let mut ctx = TestContext::new();
    let first = ctx.client.call(&mut ctx.shm, &mut ctx.ids, ADD, &(1i32, 2i32)).unwrap();
    let bad = ctx.client.call(&mut ctx.shm, &mut ctx.ids, 999, &()).unwrap();
    let big = ctx.client.call(&mut ctx.shm, &mut ctx.ids, 1, &1500u32).unwrap();
    let disc = ctx.client.discover(&mut ctx.shm, &mut ctx.ids).unwrap();
    ctx.process_one();
    ctx.process_one();
    ctx.server.process_one(&mut ctx.shm, &mut BlobService);
    ctx.server.process_one(&mut ctx.shm, &mut SmallService);
    let last = ctx.client.call(&mut ctx.shm, &mut ctx.ids, NEGATE, &5i32).unwrap();
    ctx.process_one();

    assert_eq!(ctx.poll(), 5);
    assert_eq!(ctx.client.recv_for::<i32>(last.rid), Ok(Some(-5)));
    let table = parse(ctx.client.recv_raw_for(disc.rid).unwrap()).unwrap();
    assert_eq!(table.method_count(), 5);
    assert_eq!(ctx.client.recv_for::<i32>(first.rid), Ok(Some(3)));
    assert_eq!(ctx.client.recv_for::<u32>(bad.rid), Err(RecvError::DeserializeFailed));
    let v: Vec<u8> = ctx.client.recv_for(big.rid).unwrap().unwrap();
    assert_eq!(v.len(), 1500);
}
