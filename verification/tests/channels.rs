use rt_async_amp::channel::{
    Channel, ChannelId, InvalidChannelId, SendError, CHANNEL_CAPACITY, MAGIC, VERSION,
};
use rt_async_amp::message::{EncodeError, Message, MsgType, PAYLOAD_SIZE};
use rt_async_amp::ring::RingBuffer;
use rt_async_amp::shm::{has_pending_interrupt, recv_from_interrupt, SharedMemory};
use rt_async_amp::stream::{block_count, decode, BrokenChain, RecvOutcome, MAX_STREAM_LEN};

fn test_shm() -> SharedMemory<4> {
    let mut shm = SharedMemory::<4>::new();
    shm.init();
    shm
}

#[test]
fn test_channel_id_new() {
    let id = ChannelId::new(0u8);
    assert_eq!(id.get(), 0);
}

#[test]
fn test_channel_id_try_from_u8() {
    assert_eq!(ChannelId::try_from(0u8), Ok(ChannelId::new(0u8)));
    assert_eq!(ChannelId::try_from(255u8), Ok(ChannelId::new(255u8)));
}

#[test]
fn test_channel_id_try_from_usize() {
    assert_eq!(ChannelId::try_from(0usize), Ok(ChannelId::new(0u8)));
    assert_eq!(ChannelId::try_from(255usize), Ok(ChannelId::new(255u8)));
    assert_eq!(ChannelId::try_from(256usize), Err(InvalidChannelId));
}

#[test]
fn test_message_notification() {
    let msg = Message::notification(42);
    assert_eq!(msg.ty(), Some(MsgType::Notification));
    assert_eq!(msg.as_notification(), Some(42));
}

#[test]
fn test_message_data() {
    let msg = Message::data(b"hello");
    assert_eq!(msg.ty(), Some(MsgType::Data));
    assert_eq!(msg.as_data().unwrap()[0..5], b"hello"[..]);
}

#[test]
fn test_message_request() {
    let msg = Message::request(123, 456, &(1i32, 2i32)).unwrap();
    assert_eq!(msg.ty(), Some(MsgType::Request));
    let (rid, mid, (a, b)): (u64, u64, (i32, i32)) = msg.as_request().unwrap();
    assert_eq!(rid, 123);
    assert_eq!(mid, 456);
    assert_eq!(a, 1);
    assert_eq!(b, 2);
}

#[test]
fn test_message_response() {
    let msg = Message::response(789, &99i32).unwrap();
    assert_eq!(msg.ty(), Some(MsgType::Response));
    let (rid, result): (u64, i32) = msg.as_response().unwrap();
    assert_eq!(rid, 789);
    assert_eq!(result, 99);
}

#[test]
fn test_msgtype_try_from() {
    assert_eq!(MsgType::try_from(0u8), Ok(MsgType::Notification));
    assert_eq!(MsgType::try_from(1u8), Ok(MsgType::Data));
    assert_eq!(MsgType::try_from(2u8), Ok(MsgType::Request));
    assert_eq!(MsgType::try_from(3u8), Ok(MsgType::Response));
    assert_eq!(MsgType::try_from(99u8), Err(99u8));
}

#[test]
fn test_ring_empty() {
    let mut rb: RingBuffer<4> = RingBuffer::new();
    assert!(rb.is_empty());
    assert_eq!(rb.len(), 0);
    assert_eq!(rb.try_recv(), None);
}

#[test]
fn test_ring_send_recv() {
    let mut rb: RingBuffer<4> = RingBuffer::new();
    let msg = Message::notification(1);

    assert!(rb.try_send(&msg));
    assert!(!rb.is_empty());
    assert_eq!(rb.try_recv(), Some(msg));
}

#[test]
fn test_ring_full() {
    let mut rb: RingBuffer<4> = RingBuffer::new();

    for i in 0u32..3 {
        assert!(rb.try_send(&Message::notification(i)));
    }

    assert!(!rb.try_send(&Message::notification(99)));
}

#[test]
fn test_channel_valid() {
    let ch = Channel::new();
    assert!(ch.is_valid());
    assert_eq!(ch.version(), VERSION);
}

#[test]
fn test_channel_send_recv() {
    let mut ch = Channel::new();
    let msg = Message::notification(42);

    assert!(ch.try_send(&msg).is_ok());
    assert_eq!(ch.try_recv(), Some(msg));
}

#[test]
fn test_channel_full() {
    let mut ch = Channel::new();

    for i in 0u32..CHANNEL_CAPACITY as u32 - 1 {
        assert!(ch.try_send(&Message::notification(i)).is_ok());
    }

    assert_eq!(ch.try_send(&Message::notification(99)), Err(SendError::Full));
}

#[test]
fn test_shm_new() {
    let mut shm: SharedMemory<4> = SharedMemory::new();
    shm.init();
    assert!(shm.is_valid());
}

#[test]
fn test_shm_sender_receiver() {
    let mut shm = test_shm();
    let id = ChannelId::new(0u8);

    let msg = Message::notification(42);
    assert!(shm.sender(id).unwrap().try_send(&msg).is_ok());
    assert_eq!(shm.receiver(id).unwrap().try_recv(), Some(msg));
}

#[test]
fn test_shm_invalid_channel_id() {
    let mut shm = test_shm();
    assert!(shm.sender(ChannelId::new(0u8)).is_ok());
    assert!(shm.receiver(ChannelId::new(1u8)).is_ok());
    assert!(shm.sender(ChannelId::new(4u8)).is_err());
    assert!(shm.receiver(ChannelId::new(4u8)).is_err());
}

#[test]
fn test_shm_multiple_channels() {
    let mut shm = test_shm();

    for i in 0u8..4 {
        let mut tx = shm.sender(ChannelId::new(i)).unwrap();
        let msg = Message::notification(i as u32);
        assert!(tx.try_send(&msg).is_ok());

        let mut rx = shm.receiver(ChannelId::new(i)).unwrap();
        assert_eq!(rx.try_recv(), Some(Message::notification(i as u32)));
    }
}

#[test]
fn test_receiver_iter() {
    let mut shm = test_shm();

    for i in 0u32..5 {
        shm.sender(ChannelId::new(0u8)).unwrap().try_send(&Message::notification(i)).unwrap();
    }

    let mut count = 0u32;
    let mut iter = shm.receiver(ChannelId::new(0u8)).unwrap().iter();
    while let Some(msg) = iter.next() {
        assert_eq!(msg.as_notification(), Some(count));
        count += 1;
    }
    assert_eq!(count, 5);
}

#[test]
fn test_bidirectional_communication() {
    let mut shm = test_shm();

    shm.sender(ChannelId::new(0u8)).unwrap().try_send(&Message::notification(1)).unwrap();
    assert_eq!(
        shm.receiver(ChannelId::new(0u8)).unwrap().try_recv(),
        Some(Message::notification(1))
    );

    let resp_msg = Message::response(1, &42i32).unwrap();
    shm.sender(ChannelId::new(1u8)).unwrap().try_send(&resp_msg).unwrap();

    let resp = shm.receiver(ChannelId::new(1u8)).unwrap().try_recv().unwrap();
    let (rid, result): (u64, i32) = resp.as_response().unwrap();
    assert_eq!(rid, 1);
    assert_eq!(result, 42);
}

#[test]
fn test_rpc_flow() {
    let mut shm = test_shm();

    let msg = Message::request(1001, 0, &(42i32, 99i32)).unwrap();
    shm.sender(ChannelId::new(0u8)).unwrap().try_send(&msg).unwrap();

    let req = shm.receiver(ChannelId::new(0u8)).unwrap().try_recv().unwrap();
    let (rid, _, (a, b)): (u64, u64, (i32, i32)) = req.as_request().unwrap();
    assert_eq!(rid, 1001);
    assert_eq!(a, 42);
    assert_eq!(b, 99);

    let resp_msg = Message::response(1001, &141i32).unwrap();
    shm.sender(ChannelId::new(1u8)).unwrap().try_send(&resp_msg).unwrap();

    let resp = shm.receiver(ChannelId::new(1u8)).unwrap().try_recv().unwrap();
    let (rid, result): (u64, i32) = resp.as_response().unwrap();
    assert_eq!(rid, 1001);
    assert_eq!(result, 141);
}

#[test]
fn test_multiple_systems() {
    let mut shm = test_shm();

    shm.sender(ChannelId::new(0u8)).unwrap().try_send(&Message::notification(0)).unwrap();
    shm.sender(ChannelId::new(1u8)).unwrap().try_send(&Message::notification(1)).unwrap();

    assert_eq!(
        shm.receiver(ChannelId::new(0u8)).unwrap().try_recv(),
        Some(Message::notification(0))
    );
    assert_eq!(
        shm.receiver(ChannelId::new(1u8)).unwrap().try_recv(),
        Some(Message::notification(1))
    );
}

#[test]
fn test_mixed_message_types() {
    let mut shm = test_shm();
    let mut tx = shm.sender(ChannelId::new(0u8)).unwrap();

    tx.try_send(&Message::notification(1)).unwrap();
    tx.try_send(&Message::data(b"data")).unwrap();
    tx.try_send(&Message::request(999, 0, &123u32).unwrap()).unwrap();
    tx.try_send(&Message::response(888, &456i32).unwrap()).unwrap();

    let mut iter = shm.receiver(ChannelId::new(0u8)).unwrap().iter();

    assert_eq!(iter.next().unwrap().ty(), Some(MsgType::Notification));
    assert_eq!(iter.next().unwrap().ty(), Some(MsgType::Data));
    assert_eq!(iter.next().unwrap().ty(), Some(MsgType::Request));
    assert_eq!(iter.next().unwrap().ty(), Some(MsgType::Response));
    assert_eq!(iter.next(), None);
}

#[test]
fn a_request_is_laid_out_in_order() {
    let msg = Message::request(0x0102_0304_0506_0708, 3, &(-1i32, 300u32)).unwrap();
    let p = msg.payload_bytes();
    assert_eq!(msg.kind(), 2);
    assert_eq!(&p[..8], &[8, 7, 6, 5, 4, 3, 2, 1]);
    assert_eq!(&p[8..16], &[3, 0, 0, 0, 0, 0, 0, 0]);
    assert_eq!(&p[16..20], &[1, 0xac, 2, 0]);
    assert_eq!(p.len(), PAYLOAD_SIZE);
}

#[test]
fn every_wire_type_survives_a_request() {
    let numbers = (65_535u16, -32_768i16, u32::MAX);
    let msg = Message::request(1, 2, &numbers).unwrap();
    assert_eq!(msg.as_request::<(u16, i16, u32)>(), Some((1, 2, numbers)));
    let wide = (i32::MIN, u64::MAX, 200u8);
    let msg = Message::request(1, 2, &wide).unwrap();
    assert_eq!(msg.as_request::<(i32, u64, u8)>(), Some((1, 2, wide)));
    let bytes = vec![0u8, 255, 7];
    let msg = Message::response(9, &bytes).unwrap();
    assert_eq!(&msg.payload_bytes()[8..12], &[3, 0, 255, 7]);
    assert_eq!(msg.as_response::<Vec<u8>>(), Some((9, bytes)));
}

#[test]
fn arguments_that_do_not_fit_are_refused() {
    let most = vec![1u8; 237];
    assert!(Message::request(1, 2, &most).is_ok());
    let more = vec![1u8; 238];
    assert_eq!(Message::request(1, 2, &more), Err(EncodeError::BufferFull));
    assert!(Message::response(1, &vec![1u8; 245]).is_ok());
    assert_eq!(Message::response(1, &vec![1u8; 246]), Err(EncodeError::BufferFull));
}

#[test]
fn malformed_numbers_are_not_read() {
    let msg = Message::raw(3, [0xff; 255]);
    assert_eq!(msg.as_response::<u32>(), None);
    assert_eq!(msg.as_response::<u64>(), None);
    assert_eq!(msg.as_response::<i16>(), None);
    assert_eq!(Message::raw(9, [0; 255]).ty(), None);
    assert_eq!(Message::notification(4).as_data(), None);
    assert_eq!(Message::data(b"x").as_notification(), None);
    assert_eq!(Message::notification(4).request_id(), None);
    assert_eq!(Message::notification(4).method_id(), None);
}

#[test]
fn messages_come_out_in_the_order_they_went_in() {
    let mut rb: RingBuffer<4> = RingBuffer::new();
    for round in 0u32..10 {
        assert!(rb.try_send(&Message::notification(2 * round)));
        assert!(rb.try_send(&Message::notification(2 * round + 1)));
        assert_eq!(rb.len(), 2);
        assert_eq!(rb.peek(), Some(Message::notification(2 * round)));
        assert_eq!(rb.try_recv(), Some(Message::notification(2 * round)));
        assert_eq!(rb.try_recv(), Some(Message::notification(2 * round + 1)));
    }
    assert!(rb.try_send(&Message::notification(1)));
    rb.clear();
    assert!(!rb.has_pending());
}

#[test]
fn a_ring_is_taken_apart_and_put_together() {
    let mut rb: RingBuffer<4> = RingBuffer::new();
    rb.try_send(&Message::notification(5));
    rb.try_recv();
    rb.try_send(&Message::notification(6));
    let slots = [rb.slot_at(0), rb.slot_at(1), rb.slot_at(2), rb.slot_at(3)];
    let mut copy = RingBuffer::from_parts(rb.read_index(), rb.write_index(), slots).unwrap();
    assert_eq!(copy.len(), 1);
    assert_eq!(copy.try_recv(), Some(Message::notification(6)));
    let slots = [rb.slot_at(0), rb.slot_at(1), rb.slot_at(2), rb.slot_at(3)];
    assert!(RingBuffer::<4>::from_parts(4, 0, slots).is_none());
}

#[test]
fn a_channel_without_its_magic_number_takes_and_gives_nothing() {
    let ring = RingBuffer::new();
    let mut ch = Channel::from_parts(0, VERSION, ring);
    assert!(!ch.is_valid());
    assert_eq!(ch.try_send(&Message::notification(1)), Err(SendError::Invalid));
    assert_eq!(ch.try_recv(), None);
    assert_eq!(ch.peek(), None);
    ch.init();
    assert!(ch.is_valid());
    assert_eq!(ch.try_send(&Message::notification(1)), Ok(()));
    let ring = RingBuffer::new();
    assert!(Channel::from_parts(MAGIC, VERSION, ring).is_valid());
}

#[test]
fn errors_have_words() {
    assert_eq!(SendError::Full.describe(), "Buffer full");
    assert_eq!(SendError::Invalid.describe(), "Invalid channel");
    assert!(!InvalidChannelId.describe().is_empty());
}

#[test]
fn a_frame_takes_as_many_blocks_as_its_length_asks_for() {
    assert_eq!(block_count(0), Some(1));
    assert_eq!(block_count(251), Some(1));
    assert_eq!(block_count(252), Some(2));
    assert_eq!(block_count(MAX_STREAM_LEN), Some(8));
    assert_eq!(block_count(MAX_STREAM_LEN + 1), None);
}

#[test]
fn a_frame_comes_out_whole() {
    let mut ch = Channel::new();
    let data: Vec<u8> = (0..1000u32).map(|i| (i % 253) as u8).collect();
    assert_eq!(ch.try_send_stream(3, &data), Ok(()));
    assert_eq!(ch.len(), 4);
    match ch.try_recv_unit() {
        Ok(Some(RecvOutcome::Multi(m))) => {
            assert_eq!(m.kind(), 3);
            assert_eq!(decode(m.payload()), Some(data.as_slice()));
        }
        _ => panic!("no frame"),
    }
    assert!(ch.is_empty());
    assert_eq!(ch.try_send_stream(3, &vec![0; MAX_STREAM_LEN + 1]), Err(SendError::Invalid));
}

#[test]
fn a_frame_that_does_not_fit_leaves_the_channel_as_it_was() {
    let mut ch = Channel::new();
    for i in 0u32..124 {
        ch.try_send(&Message::notification(i)).unwrap();
    }
    assert_eq!(ch.try_send_stream(3, &[0; 1000]), Err(SendError::Full));
    assert_eq!(ch.len(), 124);
    assert_eq!(ch.try_send_stream(3, &[0; 700]), Ok(()));
    assert_eq!(ch.len(), 127);
}

#[test]
fn a_chain_without_an_end_is_broken() {
    let mut ch = Channel::new();
    ch.try_send(&Message::raw(0x83, [0; 255])).unwrap();
    assert!(matches!(ch.try_recv_unit(), Err(BrokenChain)));
}

#[test]
fn an_interrupt_finds_what_was_sent() {
    let mut shm = test_shm();
    let id = ChannelId::new(2);
    assert!(!has_pending_interrupt(&shm, id));
    shm.sender(id).unwrap().try_send(&Message::notification(8)).unwrap();
    assert!(has_pending_interrupt(&shm, id));
    assert_eq!(recv_from_interrupt(&mut shm, id), Some(Message::notification(8)));
    assert_eq!(recv_from_interrupt(&mut shm, id), None);
}

#[test]
fn the_busy_flag_is_kept() {
    let mut shm = test_shm();
    assert!(!shm.is_busy());
    shm.set_busy();
    assert!(shm.is_busy());
    shm.clear_busy();
    assert!(!shm.is_busy());
    assert_eq!(shm.channel_count(), 4);
}

#[test]
fn sending_and_taking_may_alternate() {
    let mut ring = RingBuffer::<4>::new();
    let (mut accepted, mut received) = (Vec::new(), Vec::new());
    for i in 0..40u32 {
        if i % 3 != 2 {
            if ring.try_send(&Message::notification(i)) {
                accepted.push(i);
            }
        } else if let Some(m) = ring.try_recv() {
            received.push(m.as_notification().unwrap());
        }
        assert_eq!(received.len() + ring.len(), accepted.len());
    }
    while let Some(m) = ring.try_recv() {
        received.push(m.as_notification().unwrap());
    }
    assert_eq!(accepted, received);
    assert!(accepted.len() < 27);
}
