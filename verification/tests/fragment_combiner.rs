use temperature_protocol::fragment_combiner::{
    decoded, init_new_fragments, is_keep_alive, source_id, Datagram, FragInfo, FragmentCombiner,
    FragmentError, LastMessage, FRAG_MAGIC, MAX_LOG_FRAGMENT, MAX_MESSAGE_SIZE, MAX_UDP,
};

fn addr() -> u64 {
    source_id(0x7f00_0001, 5000)
}

fn good_message() -> Vec<u8> {
    let mut out_bytes: Vec<u8> = vec![0x12, 0x02, 0x10, 0x01];
    let mut message: Vec<u8> = vec![FRAG_MAGIC, 1, 1, 1, 0];
    message.append(&mut out_bytes);
    message
}

fn payload_of(len: usize) -> Vec<u8> {
    (0..len).map(|i| (i * 7 + i / 251 + 3) as u8).collect()
}

fn fragments_of(payload: &[u8], seq: u8) -> Vec<Vec<u8>> {
    let count = if payload.is_empty() {
        1
    } else {
        (payload.len() + MAX_LOG_FRAGMENT - 1) / MAX_LOG_FRAGMENT
    };
    let mut out = Vec::new();
    for i in 0..count {
        let begin = i * MAX_LOG_FRAGMENT;
        let end = if i == count - 1 { payload.len() } else { begin + MAX_LOG_FRAGMENT };
        let mut datagram = vec![FRAG_MAGIC, 1, seq, (i == count - 1) as u8, i as u8];
        datagram.extend_from_slice(&payload[begin..end]);
        out.push(datagram);
    }
    out
}

#[test]
fn smoke() {
    let mut f = FragmentCombiner::new();
    let message = good_message();
    let called = f.add_fragment(addr(), &message);
    assert_eq!(called.is_ok(), true);
    assert_eq!(called.unwrap().is_some(), true);
}

#[test]
fn bad_size() {
    let mut f = FragmentCombiner::new();
    let message: Vec<u8> = vec![FRAG_MAGIC];
    let err = f.add_fragment(addr(), &message);
    assert_eq!(err.is_err(), true);
}

#[test]
fn bad_magic() {
    let mut f = FragmentCombiner::new();
    let mut message: Vec<u8> = vec![FRAG_MAGIC];
    message[0] = 100;
    let err = f.add_fragment(addr(), &message);
    assert_eq!(err.is_err(), true);
}

#[test]
fn single_fragment_yields_its_payload() {
    let mut f = FragmentCombiner::new();
    let r = f.add_fragment(addr(), &[0xFA, 0x01, 0x01, 0x01, 0x00, 9, 8, 7]);
    assert_eq!(r, Ok(Some(vec![9, 8, 7])));
}

#[test]
fn header_errors_in_order() {
    let mut f = FragmentCombiner::new();
    assert_eq!(f.add_fragment(1, &[]), Err(FragmentError::TooShort));
    assert_eq!(f.add_fragment(1, &[0xFA, 1, 1, 1]), Err(FragmentError::TooShort));
    assert_eq!(f.add_fragment(1, &[100, 2, 1, 1, 0]), Err(FragmentError::BadMagic));
    assert_eq!(f.add_fragment(1, &[0xFA, 2, 1, 1, 0]), Err(FragmentError::UnsupportedFlags));
    assert_eq!(f.add_fragment(1, &[0xFA, 0, 1, 1, 0]), Err(FragmentError::UnsupportedFlags));
    assert_eq!(FragInfo::parse(&[0xFA, 1, 7, 0, 3]),
        Ok(FragInfo { magic: 0xFA, flags: 1, seq: 7, is_final: false, curr: 3 }));
    assert_eq!(FragInfo::parse(&[0xFA, 1, 7, 5, 3]).unwrap().is_final, true);
}

#[test]
fn short_fragment_that_is_not_final_is_rejected() {
    let mut f = FragmentCombiner::new();
    assert_eq!(f.add_fragment(1, &[0xFA, 1, 1, 0, 0, 1, 2, 3]), Err(FragmentError::WrongFragmentSize));
    let mut long = vec![0xFA, 1, 1, 0, 0];
    long.resize(MAX_UDP + 1, 0);
    assert_eq!(f.add_fragment(1, &long), Err(FragmentError::WrongFragmentSize));
    long.truncate(MAX_UDP);
    assert_eq!(f.add_fragment(1, &long), Ok(None));
}

#[test]
fn fragment_beyond_the_buffer_is_rejected() {
    let mut f = FragmentCombiner::new();
    // index 45 starts at 65475: 61 bytes fit, 62 do not
    let mut d = vec![0xFA, 1, 1, 1, 45];
    d.resize(5 + 62, 1);
    assert_eq!(f.add_fragment(1, &d), Err(FragmentError::MessageTooLarge));
    assert_eq!(f.add_fragment(1, &[0xFA, 1, 1, 1, 46]), Err(FragmentError::MessageTooLarge));
    assert_eq!(f.add_fragment(1, &[0xFA, 1, 1, 0, 255, 0]), Err(FragmentError::MessageTooLarge));
    d.truncate(5 + 61);
    // 46 fragments are expected, one has come
    assert_eq!(f.add_fragment(1, &d), Ok(None));
}

#[test]
fn two_fragments_in_order() {
    let payload = payload_of(MAX_LOG_FRAGMENT + 100);
    let ds = fragments_of(&payload, 3);
    assert_eq!(ds.len(), 2);
    assert_eq!(ds[0].len(), MAX_UDP);
    let mut f = FragmentCombiner::new();
    assert_eq!(f.add_fragment(7, &ds[0]), Ok(None));
    assert_eq!(f.add_fragment(7, &ds[1]), Ok(Some(payload)));
}

#[test]
fn round_trip_of_many_sizes() {
    for len in [0usize, 1, 1454, 1455, 1456, 2910, 5000, 65535, MAX_MESSAGE_SIZE] {
        let payload = payload_of(len);
        let ds = fragments_of(&payload, 9);
        let mut f = FragmentCombiner::new();
        for (k, d) in ds.iter().enumerate() {
            let r = f.add_fragment(addr(), d);
            if k + 1 < ds.len() {
                assert_eq!(r, Ok(None));
            } else {
                assert_eq!(r, Ok(Some(payload.clone())));
            }
        }
    }
}

#[test]
fn fragments_in_any_order() {
    let payload = payload_of(4 * MAX_LOG_FRAGMENT + 17);
    let ds = fragments_of(&payload, 200);
    assert_eq!(ds.len(), 5);
    for order in [[4usize, 3, 2, 1, 0], [2, 4, 0, 3, 1], [0, 1, 2, 3, 4], [4, 0, 1, 2, 3]] {
        let mut f = FragmentCombiner::new();
        for (k, i) in order.iter().enumerate() {
            let r = f.add_fragment(addr(), &ds[*i]);
            if k < 4 {
                assert_eq!(r, Ok(None));
            } else {
                assert_eq!(r, Ok(Some(payload.clone())));
            }
        }
    }
}

#[test]
fn new_sequence_id_discards_what_was_there() {
    let old = payload_of(3 * MAX_LOG_FRAGMENT);
    let new = vec![5u8; MAX_LOG_FRAGMENT + 1];
    let old_ds = fragments_of(&old, 1);
    let new_ds = fragments_of(&new, 2);
    let mut f = FragmentCombiner::new();
    assert_eq!(f.add_fragment(addr(), &old_ds[0]), Ok(None));
    assert_eq!(f.add_fragment(addr(), &old_ds[1]), Ok(None));
    assert_eq!(f.add_fragment(addr(), &new_ds[0]), Ok(None));
    assert_eq!(f.add_fragment(addr(), &new_ds[1]), Ok(Some(new)));
    // the old message no longer completes: its first fragments are gone
    assert_eq!(f.add_fragment(addr(), &old_ds[2]), Ok(None));
}

#[test]
fn sources_do_not_mix() {
    let a = payload_of(MAX_LOG_FRAGMENT + 5);
    let b = vec![1u8; MAX_LOG_FRAGMENT + 9];
    let a_ds = fragments_of(&a, 1);
    let b_ds = fragments_of(&b, 1);
    let mut f = FragmentCombiner::new();
    assert_eq!(f.add_fragment(1, &a_ds[0]), Ok(None));
    assert_eq!(f.add_fragment(2, &b_ds[0]), Ok(None));
    assert_eq!(f.add_fragment(2, &b_ds[1]), Ok(Some(b)));
    assert_eq!(f.add_fragment(1, &a_ds[1]), Ok(Some(a)));
    assert_ne!(source_id(1, 2), source_id(2, 1));
    assert_eq!(source_id(0xC0A8_00C8, 4000), 0xC0A8_00C8_0FA0);
}

#[test]
fn duplicates_after_completion_do_not_complete_again() {
    let mut f = FragmentCombiner::new();
    let d = [0xFA, 1, 4, 1, 0, 42];
    assert_eq!(f.add_fragment(1, &d), Ok(Some(vec![42])));
    for _ in 0..600 {
        assert_eq!(f.add_fragment(1, &d), Ok(None));
    }
}

#[test]
fn a_duplicate_stands_for_a_missing_fragment() {
    // three fragments are counted, the middle one never came: zeros stand in its place
    let payload = payload_of(2 * MAX_LOG_FRAGMENT + 10);
    let ds = fragments_of(&payload, 8);
    let mut f = FragmentCombiner::new();
    assert_eq!(f.add_fragment(1, &ds[0]), Ok(None));
    assert_eq!(f.add_fragment(1, &ds[0]), Ok(None));
    let got = f.add_fragment(1, &ds[2]).unwrap().unwrap();
    assert_eq!(got.len(), payload.len());
    assert_eq!(got[..MAX_LOG_FRAGMENT], payload[..MAX_LOG_FRAGMENT]);
    assert_eq!(got[MAX_LOG_FRAGMENT..2 * MAX_LOG_FRAGMENT], vec![0u8; MAX_LOG_FRAGMENT][..]);
    assert_eq!(got[2 * MAX_LOG_FRAGMENT..], payload[2 * MAX_LOG_FRAGMENT..]);
}

#[test]
fn state_of_one_source() {
    let fresh = init_new_fragments();
    assert_eq!(fresh.seq(), 0);
    assert_eq!(fresh.recv_frag(), 0);
    assert_eq!(fresh.last(), None);
    let buf = [0xFA, 1, 6, 1, 2, 1, 2, 3];
    let info = FragInfo::parse(&buf).unwrap();
    let (next, r) = fresh.add(info, &buf);
    assert_eq!(r, Ok(None));
    assert_eq!(next.seq(), 6);
    assert_eq!(next.recv_frag(), 1);
    assert_eq!(next.last(), Some(LastMessage { nfrag: 3, total_size: 2 * MAX_LOG_FRAGMENT + 3 }));
}

#[test]
fn keep_alive_and_decoding() {
    assert_eq!(is_keep_alive(&[]), false);
    assert_eq!(is_keep_alive(&[1]), true);
    assert_eq!(is_keep_alive(&[1, 2, 3]), true);
    assert_eq!(is_keep_alive(&[1, 2, 3, 4]), false);
    let mut f = FragmentCombiner::new();
    assert_eq!(f.receive(1, &[0xFA]), Datagram::KeepAlive);
    assert_eq!(f.receive(1, &[1, 2, 3]), Datagram::KeepAlive);
    assert_eq!(f.receive(1, &[]), Datagram::Fragment(Err(FragmentError::TooShort)));
    assert_eq!(f.receive(1, &[0xFA, 1, 1, 1]), Datagram::Fragment(Err(FragmentError::TooShort)));
    assert_eq!(f.receive(1, &[0xFA, 1, 1, 1, 0, 7]), Datagram::Fragment(Ok(Some(vec![7]))));
    assert_eq!(decoded(Some(5u8)), Ok(5u8));
    assert_eq!(decoded::<u8>(None), Err(FragmentError::CorruptPayload));
}

#[test]
fn rejected_fragment_of_a_new_message_still_starts_it() {
    let payload = payload_of(MAX_LOG_FRAGMENT + 3);
    let ds = fragments_of(&payload, 1);
    let mut f = FragmentCombiner::new();
    assert_eq!(f.add_fragment(1, &ds[0]), Ok(None));
    // a fragment of message 2 that is too short: message 1 is given up all the same
    assert_eq!(f.add_fragment(1, &[0xFA, 1, 2, 0, 0, 1]), Err(FragmentError::WrongFragmentSize));
    assert_eq!(f.add_fragment(1, &ds[1]), Ok(None));
    // a bad header leaves the message in progress alone
    let mut g = FragmentCombiner::new();
    assert_eq!(g.add_fragment(1, &ds[0]), Ok(None));
    assert_eq!(g.add_fragment(1, &[0xFB, 1, 2, 1, 0, 1]), Err(FragmentError::BadMagic));
    assert_eq!(g.add_fragment(1, &[0xFA, 1, 2]), Err(FragmentError::TooShort));
    assert_eq!(g.add_fragment(1, &ds[1]), Ok(Some(payload)));
}
