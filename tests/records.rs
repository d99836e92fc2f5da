use transfer_balances::records::{
    decode_transfer, grt_transfer_record, is_tracked_contract, row_id, transfer_record, LogSite,
    GRT_TRACKED_CONTRACT, TRANSFER_TOPIC,
};
use transfer_balances::{CallTrace, PreimageRevelation, StorageWrite, TransferEvent};

fn address(last: u8, fill: u8) -> Vec<u8> {
    let mut a = vec![fill; 20];
    a[19] = last;
    a
}

fn hex_of(b: &[u8]) -> String {
    b.iter().map(|x| format!("{:02x}", x)).collect()
}

fn word_of(addr: &[u8]) -> Vec<u8> {
    let mut w = vec![0u8; 12];
    w.extend_from_slice(addr);
    w
}

fn site() -> LogSite {
    LogSite {
        tx_hash: vec![0xab, 0x01],
        log_index: 7,
        block_time: Some(prost_types::Timestamp { seconds: 1_700_000_000, nanos: 5 }),
        block_number: 123,
    }
}

fn sample_call() -> CallTrace {
    let from = address(0x01, 0xaa);
    let to = address(0x02, 0xbb);
    CallTrace {
        storage_changes: vec![
            StorageWrite {
                key: vec![0x11; 32],
                old_value: 5000i64.to_be_bytes().to_vec(),
                new_value: 4000i64.to_be_bytes().to_vec(),
            },
            StorageWrite {
                key: vec![0x22; 32],
                old_value: 200i64.to_be_bytes().to_vec(),
                new_value: 1200i64.to_be_bytes().to_vec(),
            },
        ],
        keccak_preimages: vec![
            PreimageRevelation {
                hash: hex_of(&[0x11; 32]),
                preimage: format!("{}{}{}", "0".repeat(24), hex_of(&from), "0".repeat(64)),
            },
            PreimageRevelation {
                hash: hex_of(&[0x22; 32]),
                preimage: format!("{}{}{}", "0".repeat(24), hex_of(&to), "0".repeat(64)),
            },
        ],
    }
}

fn sample_transfer() -> TransferEvent {
    TransferEvent {
        from: address(0x01, 0xaa),
        to: address(0x02, 0xbb),
        value: 1000i64.to_be_bytes().to_vec(),
    }
}

#[test]
fn tracked_contract_is_recognised() {
    assert!(is_tracked_contract(&GRT_TRACKED_CONTRACT.to_vec()));
    assert!(!is_tracked_contract(&vec![0u8; 20]));
    assert!(!is_tracked_contract(&GRT_TRACKED_CONTRACT[..19].to_vec()));
}

#[test]
fn transfer_log_is_decoded() {
    let from = address(0x01, 0xaa);
    let to = address(0x02, 0xbb);
    let mut data = vec![0u8; 32];
    data[30] = 0x03;
    data[31] = 0xe8;
    let topics = vec![TRANSFER_TOPIC.to_vec(), word_of(&from), word_of(&to)];
    let t = decode_transfer(&topics, &data).expect("a transfer log");
    assert_eq!(t.from, from);
    assert_eq!(t.to, to);
    let mut value = vec![0u8];
    value.extend_from_slice(&data);
    assert_eq!(t.value, value);
}

#[test]
fn other_logs_are_not_transfers() {
    let from = address(0x01, 0xaa);
    let to = address(0x02, 0xbb);
    let data = vec![0u8; 32];
    let wrong_topic = vec![vec![0u8; 32], word_of(&from), word_of(&to)];
    assert!(decode_transfer(&wrong_topic, &data).is_none());
    let two_topics = vec![TRANSFER_TOPIC.to_vec(), word_of(&from)];
    assert!(decode_transfer(&two_topics, &data).is_none());
    let topics = vec![TRANSFER_TOPIC.to_vec(), word_of(&from), word_of(&to)];
    assert!(decode_transfer(&topics, &vec![0u8; 31]).is_none());
    let short_word = vec![TRANSFER_TOPIC.to_vec(), from.clone(), word_of(&to)];
    assert!(decode_transfer(&short_word, &data).is_none());
}

#[test]
fn transfer_record_writes_hex_and_decimal() {
    let r = transfer_record(site(), &sample_call(), &sample_transfer());
    assert_eq!(r.evt_tx_hash, "0xab01");
    assert_eq!(r.evt_index, 7);
    assert_eq!(r.evt_block_number, 123);
    assert_eq!(r.evt_block_time.map(|t| t.seconds), Some(1_700_000_000));
    assert_eq!(r.from, format!("0x{}", hex_of(&address(0x01, 0xaa))));
    assert_eq!(r.to, format!("0x{}", hex_of(&address(0x02, 0xbb))));
    assert_eq!(r.value, "1000");
    assert_eq!(r.from_balance, "4000");
    assert_eq!(r.to_balance, "1200");
}

#[test]
fn grt_transfer_record_keeps_endpoint_bytes() {
    let r = grt_transfer_record(site(), &sample_call(), sample_transfer());
    assert_eq!(r.evt_tx_hash, "ab01");
    assert_eq!(r.from, address(0x01, 0xaa));
    assert_eq!(r.to, address(0x02, 0xbb));
    assert_eq!(r.value, "1000");
    assert_eq!(r.from_balance, "4000");
    assert_eq!(r.to_balance, "1200");
}

#[test]
fn record_without_preimages_has_zero_balances() {
    let mut c = sample_call();
    c.keccak_preimages.clear();
    let r = transfer_record(site(), &c, &sample_transfer());
    assert_eq!(r.from_balance, "0");
    assert_eq!(r.to_balance, "0");
}

#[test]
fn negative_balance_is_written_with_sign() {
    let c = CallTrace {
        storage_changes: vec![StorageWrite {
            key: vec![0x11; 32],
            old_value: (-500i64).to_be_bytes().to_vec(),
            new_value: (-1500i64).to_be_bytes().to_vec(),
        }],
        keccak_preimages: sample_call().keccak_preimages,
    };
    let r = transfer_record(site(), &c, &sample_transfer());
    assert_eq!(r.from_balance, "-1500");
}

#[test]
fn row_id_joins_hash_and_index() {
    assert_eq!(row_id(&"0xab01".to_string(), 42), "0xab01-42");
    assert_eq!(row_id(&"x".to_string(), 0), "x-0");
}
