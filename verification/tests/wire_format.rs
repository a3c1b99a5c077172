use ckb_std::ckb_types::packed;
use ckb_std::ckb_types::prelude::Entity;
use rgbpp_lock::cell::{CellOutput, OutPoint, Script};
use rgbpp_lock::schemas::{BTCTimeLock, ExtraCommitmentData, RGBPPLock, RGBPPUnlock};

fn sample_script(args: Vec<u8>) -> Script {
    let mut code_hash = [0u8; 32];
    for (i, b) in code_hash.iter_mut().enumerate() {
        *b = 0xa0 + i as u8;
    }
    Script { code_hash, hash_type: 1, args }
}

fn sample_script_bytes(args: &[u8]) -> Vec<u8> {
    let mut expected: Vec<u8> = Vec::new();
    expected.extend_from_slice(&(53 + args.len() as u32).to_le_bytes());
    expected.extend_from_slice(&[16, 0, 0, 0, 48, 0, 0, 0, 49, 0, 0, 0]);
    for i in 0..32u8 {
        expected.push(0xa0 + i);
    }
    expected.push(1);
    expected.extend_from_slice(&(args.len() as u32).to_le_bytes());
    expected.extend_from_slice(args);
    expected
}

#[test]
fn out_point_bytes_are_hash_then_index() {
    let mut tx_hash = [0u8; 32];
    tx_hash[0] = 0x11;
    tx_hash[31] = 0x22;
    let bytes = OutPoint { tx_hash, index: 0x0102_0304 }.as_bytes();
    let mut expected = tx_hash.to_vec();
    expected.extend_from_slice(&[0x04, 0x03, 0x02, 0x01]);
    assert_eq!(bytes, expected);
    assert!(packed::OutPoint::from_slice(&bytes).is_ok());
}

#[test]
fn script_bytes_follow_the_table_layout() {
    let script = sample_script(vec![9, 8, 7]);
    let bytes = script.as_bytes();
    assert_eq!(bytes, sample_script_bytes(&[9, 8, 7]));
    assert_eq!(bytes.len(), 56);
    assert!(packed::Script::from_slice(&bytes).is_ok());
}

#[test]
fn script_with_no_arguments_has_53_bytes() {
    let bytes = sample_script(vec![]).as_bytes();
    assert_eq!(bytes.len(), 53);
    assert_eq!(&bytes[..4], &[53, 0, 0, 0]);
    assert_eq!(&bytes[49..], &[0, 0, 0, 0]);
}

#[test]
fn cell_output_bytes_without_type() {
    let lock = sample_script(vec![1, 2]);
    let output = CellOutput { capacity: 0x0807_0605_0403_0201, lock, type_: None };
    let bytes = output.as_bytes();
    let lock_bytes = sample_script_bytes(&[1, 2]);
    let mut expected: Vec<u8> = Vec::new();
    expected.extend_from_slice(&(24 + lock_bytes.len() as u32).to_le_bytes());
    expected.extend_from_slice(&[16, 0, 0, 0, 24, 0, 0, 0]);
    expected.extend_from_slice(&(24 + lock_bytes.len() as u32).to_le_bytes());
    expected.extend_from_slice(&[1, 2, 3, 4, 5, 6, 7, 8]);
    expected.extend_from_slice(&lock_bytes);
    assert_eq!(bytes, expected);
    assert!(packed::CellOutput::from_slice(&bytes).is_ok());
}

#[test]
fn cell_output_bytes_with_type() {
    let lock = sample_script(vec![1, 2]);
    let type_ = sample_script(vec![5; 10]);
    let output = CellOutput { capacity: 1000, lock, type_: Some(type_) };
    let bytes = output.as_bytes();
    let lock_bytes = sample_script_bytes(&[1, 2]);
    let type_bytes = sample_script_bytes(&[5; 10]);
    let mut expected: Vec<u8> = Vec::new();
    expected.extend_from_slice(&((24 + lock_bytes.len() + type_bytes.len()) as u32).to_le_bytes());
    expected.extend_from_slice(&[16, 0, 0, 0, 24, 0, 0, 0]);
    expected.extend_from_slice(&(24 + lock_bytes.len() as u32).to_le_bytes());
    expected.extend_from_slice(&1000u64.to_le_bytes());
    expected.extend_from_slice(&lock_bytes);
    expected.extend_from_slice(&type_bytes);
    assert_eq!(bytes, expected);
    assert!(packed::CellOutput::from_slice(&bytes).is_ok());
}

#[test]
fn cell_output_bytes_with_another_lock() {
    let output = CellOutput { capacity: 7, lock: sample_script(vec![1]), type_: None };
    let other = sample_script(vec![4, 4, 4, 4]);
    let replaced = CellOutput { capacity: 7, lock: sample_script(vec![4, 4, 4, 4]), type_: None };
    assert_eq!(output.as_bytes_with_lock(&other), replaced.as_bytes());
    assert_ne!(output.as_bytes_with_lock(&other), output.as_bytes());
}

#[test]
fn script_from_slice_reads_back_what_was_written() {
    let script = sample_script(vec![3; 40]);
    assert_eq!(Script::from_slice(&script.as_bytes()), Some(script));
}

#[test]
fn script_from_slice_agrees_with_the_packed_reader() {
    let good = sample_script(vec![1, 2, 3]).as_bytes();
    let mut cases: Vec<Vec<u8>> = vec![good.clone(), vec![], vec![4, 0, 0, 0], good[..55].to_vec()];
    let mut longer = good.clone();
    longer.push(0);
    cases.push(longer);
    for at in [0usize, 4, 8, 12, 49] {
        let mut broken = good.clone();
        broken[at] = broken[at].wrapping_add(1);
        cases.push(broken);
    }
    for case in cases {
        assert_eq!(
            Script::from_slice(&case).is_some(),
            packed::Script::from_slice(&case).is_ok(),
            "{:?}",
            case
        );
    }
}

#[test]
fn rgbpp_lock_is_index_then_txid() {
    let mut btc_txid = [0u8; 32];
    btc_txid[0] = 0xee;
    let lock = RGBPPLock { out_index: 0x0a0b_0c0d, btc_txid };
    let bytes = lock.as_bytes();
    let mut expected = vec![0x0d, 0x0c, 0x0b, 0x0a];
    expected.extend_from_slice(&btc_txid);
    assert_eq!(bytes, expected);
    assert_eq!(RGBPPLock::from_slice(&bytes), Some(lock));
}

#[test]
fn rgbpp_lock_needs_exactly_36_bytes() {
    assert_eq!(RGBPPLock::from_slice(&[0u8; 35]), None);
    assert_eq!(RGBPPLock::from_slice(&[0u8; 37]), None);
    assert_eq!(RGBPPLock::from_slice(&[]), None);
    assert_eq!(
        RGBPPLock::from_slice(&[0u8; 36]),
        Some(RGBPPLock { out_index: 0, btc_txid: [0u8; 32] })
    );
}

#[test]
fn btc_time_lock_bytes_follow_the_table_layout() {
    let lock = BTCTimeLock { lock_script: sample_script(vec![6, 6]), after: 6, btc_txid: [0x77; 32] };
    let bytes = lock.as_bytes();
    let script_bytes = sample_script_bytes(&[6, 6]);
    let n = script_bytes.len() as u32;
    let mut expected: Vec<u8> = Vec::new();
    expected.extend_from_slice(&(52 + n).to_le_bytes());
    expected.extend_from_slice(&16u32.to_le_bytes());
    expected.extend_from_slice(&(16 + n).to_le_bytes());
    expected.extend_from_slice(&(20 + n).to_le_bytes());
    expected.extend_from_slice(&script_bytes);
    expected.extend_from_slice(&6u32.to_le_bytes());
    expected.extend_from_slice(&[0x77; 32]);
    assert_eq!(bytes, expected);
    assert_eq!(BTCTimeLock::from_slice(&bytes), Some(lock));
}

#[test]
fn btc_time_lock_refuses_what_is_not_its_encoding() {
    let lock = BTCTimeLock { lock_script: sample_script(vec![]), after: 9, btc_txid: [1; 32] };
    let good = lock.as_bytes();
    assert!(BTCTimeLock::from_slice(&good).is_some());
    assert_eq!(BTCTimeLock::from_slice(&good[..good.len() - 1]), None);
    assert_eq!(BTCTimeLock::from_slice(&[0u8; 36]), None);
    assert_eq!(BTCTimeLock::from_slice(&[]), None);
    for at in [0usize, 4, 8, 12, 16, 20] {
        let mut broken = good.clone();
        broken[at] = broken[at].wrapping_add(1);
        assert_eq!(BTCTimeLock::from_slice(&broken), None, "byte {}", at);
    }
}

#[test]
fn rgbpp_unlock_bytes_follow_the_table_layout() {
    let unlock = RGBPPUnlock {
        version: 0x0102,
        extra_data: ExtraCommitmentData { input_len: 3, output_len: 4 },
        btc_tx: vec![0xaa, 0xbb, 0xcc],
        btc_tx_proof: vec![0xdd; 5],
    };
    let bytes = unlock.as_bytes();
    let mut expected: Vec<u8> = Vec::new();
    expected.extend_from_slice(&40u32.to_le_bytes());
    expected.extend_from_slice(&20u32.to_le_bytes());
    expected.extend_from_slice(&22u32.to_le_bytes());
    expected.extend_from_slice(&24u32.to_le_bytes());
    expected.extend_from_slice(&31u32.to_le_bytes());
    expected.extend_from_slice(&[0x02, 0x01, 3, 4]);
    expected.extend_from_slice(&3u32.to_le_bytes());
    expected.extend_from_slice(&[0xaa, 0xbb, 0xcc]);
    expected.extend_from_slice(&5u32.to_le_bytes());
    expected.extend_from_slice(&[0xdd; 5]);
    assert_eq!(bytes, expected);
    assert_eq!(RGBPPUnlock::from_slice(&bytes), Some(unlock));
}

#[test]
fn rgbpp_unlock_refuses_what_is_not_its_encoding() {
    let unlock = RGBPPUnlock {
        version: 0,
        extra_data: ExtraCommitmentData { input_len: 1, output_len: 1 },
        btc_tx: vec![],
        btc_tx_proof: vec![],
    };
    let good = unlock.as_bytes();
    assert_eq!(good.len(), 32);
    assert_eq!(RGBPPUnlock::from_slice(&good), Some(unlock));
    assert_eq!(RGBPPUnlock::from_slice(&[1, 0, 0, 0]), None);
    assert_eq!(RGBPPUnlock::from_slice(&[]), None);
    assert_eq!(RGBPPUnlock::from_slice(&good[..31]), None);
    for at in [0usize, 4, 8, 12, 16, 24, 28] {
        let mut broken = good.clone();
        broken[at] = broken[at].wrapping_add(1);
        assert_eq!(RGBPPUnlock::from_slice(&broken), None, "byte {}", at);
    }
}

#[test]
fn script_from_slice_agrees_with_the_packed_reader_on_every_flipped_bit() {
    let good = sample_script(vec![0x10, 0x20, 0x30, 0x40, 0x50]).as_bytes();
    for at in 0..good.len() {
        for bit in 0..8 {
            let mut case = good.clone();
            case[at] ^= 1 << bit;
            let ours = Script::from_slice(&case);
            let theirs = packed::Script::from_slice(&case);
            assert_eq!(ours.is_some(), theirs.is_ok(), "byte {} bit {}", at, bit);
            if let (Some(ours), Ok(theirs)) = (ours, theirs) {
                assert_eq!(&ours.code_hash[..], &theirs.code_hash().raw_data()[..]);
                assert_eq!(ours.hash_type, u8::from(theirs.hash_type()));
                assert_eq!(&ours.args[..], &theirs.args().raw_data()[..]);
            }
        }
    }
}

#[test]
fn script_from_slice_agrees_with_the_packed_reader_on_every_prefix() {
    let good = sample_script(vec![7; 9]).as_bytes();
    for len in 0..=good.len() {
        let case = &good[..len];
        assert_eq!(
            Script::from_slice(case).is_some(),
            packed::Script::from_slice(case).is_ok(),
            "length {}",
            len
        );
    }
}

#[test]
fn cell_output_bytes_are_read_back_by_the_packed_reader() {
    let output = CellOutput {
        capacity: 0xdead_beef_0000_0001,
        lock: sample_script(vec![1, 2, 3]),
        type_: Some(sample_script(vec![4; 20])),
    };
    let read = packed::CellOutput::from_slice(&output.as_bytes()).unwrap();
    assert_eq!(&read.capacity().raw_data()[..], &0xdead_beef_0000_0001u64.to_le_bytes()[..]);
    assert_eq!(read.lock().as_slice(), &output.lock.as_bytes()[..]);
    assert_eq!(
        read.type_().to_opt().unwrap().as_slice(),
        &output.type_.as_ref().unwrap().as_bytes()[..]
    );
}
