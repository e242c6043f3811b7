use rt_async_amp::descriptor::{
    encode, encoded_len, parse, FLAG_ACALL, FLAG_ONE_WAY, FLAG_URGENT, PROTOCOL_VERSION,
};

const MIDS: [u64; 3] = [1, 2, 18];
const FLAGS: [u8; 3] = [0, FLAG_ONE_WAY, FLAG_ACALL];
const NAMES: [&str; 3] = ["ECHO", "DELAY", "ARM_RELEASE"];

#[test]
fn const_encode_runtime_parse_roundtrip() {
    let len = encoded_len(&MIDS, &FLAGS, &NAMES);
    let arr = encode(&MIDS, &FLAGS, &NAMES);
    assert_eq!(arr.len(), len);

    let d = parse(&arr).expect("the bytes can be parsed");
    assert_eq!(d.proto(), PROTOCOL_VERSION);
    assert_eq!(d.method_count(), 3);
    let ms = d.methods().collect();
    assert_eq!(ms[0].name, "ECHO");
    assert_eq!(ms[0].mid, 1);
    assert_eq!(ms[0].kind_name(), "call");
    assert_eq!(ms[1].name, "DELAY");
    assert!(ms[1].is_one_way() && !ms[1].is_urgent());
    assert_eq!(ms[2].name, "ARM_RELEASE");
    assert!(ms[2].is_deferred());
    assert_eq!(ms[2].kind_name(), "acall");
}

#[test]
fn varint_boundaries() {
    let mids: [u64; 6] = [0, 127, 128, 16383, 16384, u64::MAX];
    let flags: [u8; 6] = [0; 6];
    let names: [&str; 6] = ["A", "B", "C", "D", "E", "F"];
    let len = encoded_len(&mids, &flags, &names);
    assert_eq!(encoded_len(&mids, &[], &names), len);
    assert_eq!(encoded_len(&mids, &[255; 9], &names), len);
    let arr = encode(&mids, &flags, &names);
    assert_eq!(arr.len(), len);
    let d = parse(&arr).unwrap();
    let parsed: Vec<u64> = d.methods().collect().iter().map(|m| m.mid).collect();
    assert_eq!(parsed, mids.to_vec());
}

#[test]
fn reject_garbage() {
    assert!(parse(&[]).is_none());
    assert!(parse(&[9, 0]).is_none());
    assert!(parse(&[PROTOCOL_VERSION, 200, 0]).is_none());
    let a_mids: [u64; 1] = [1];
    let a_flags: [u8; 1] = [0];
    let a_names: [&str; 1] = ["X"];
    let a_arr = encode(&a_mids, &a_flags, &a_names);
    assert_eq!(a_arr.len(), encoded_len(&a_mids, &a_flags, &a_names));
    let mut padded = a_arr.to_vec();
    padded.extend_from_slice(&[0u8; 5]);
    assert!(parse(&padded).is_some(), "what follows the table is ignored");
    let mut bad = a_arr;
    bad[2] += 1;
    assert!(parse(&bad).is_none());
    assert!(parse(&[PROTOCOL_VERSION, 5, 1, 1, 0, 1, 0xFF]).is_none());
}

#[test]
fn a_table_has_exactly_these_bytes() {
    let bytes = encode(&[300], &[FLAG_ONE_WAY | FLAG_URGENT], &["GO"]);
    assert_eq!(bytes, vec![1, 7, 1, 0xac, 2, 3, 2, b'G', b'O']);
    let d = parse(&bytes).unwrap();
    let ms = d.methods().collect();
    assert_eq!(ms[0].kind_name(), "urgent");
    assert!(ms[0].is_urgent() && ms[0].is_one_way() && !ms[0].is_deferred());
}

#[test]
fn methods_are_taken_one_by_one() {
    let bytes = encode(&MIDS, &FLAGS, &NAMES);
    let d = parse(&bytes).unwrap();
    let mut it = d.methods();
    assert_eq!(it.next().unwrap().name, "ECHO");
    assert_eq!(it.next().unwrap().kind_name(), "send");
    assert_eq!(it.next().unwrap().mid, 18);
    assert!(it.next().is_none());
}

#[test]
fn a_name_outside_ascii_survives() {
    let bytes = encode(&[5], &[0], &["caf\u{e9}"]);
    assert_eq!(parse(&bytes).unwrap().methods().next().unwrap().name, "caf\u{e9}");
}
