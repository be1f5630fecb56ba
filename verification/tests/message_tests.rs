use kcl::codec::{decode_message, encode_message, DecodeError};
use kcl::{CheckpointError, Message, Record};

#[test]
fn parse_initialize() {
    let given = "{\"action\" :\"initialize\", \"shardId\": \"shard1\"}";
    let expected = Message::Initialize {
        shard_id: "shard1".to_string(),
    };

    let actual = decode_message(given).unwrap();
    assert_eq!(actual, expected);
}

#[test]
fn parse_process_record() {
    let given = "{\"action\": \"processRecords\", \
        \"records\": [{\
            \"data\": \"SGVsbG8sIHRoaXMgaXMgYSB0ZXN0Lg==\",\
            \"partitionKey\": \"1\",\
            \"sequenceNumber\": \"49590338271490256608559692538361571095921575989136588898\",\
            \"approximateArrivalTimestamp\": 1570887011763.01}]}";
    let parsed = decode_message(given).unwrap();

    if let Message::ProcessRecords { records } = parsed {
        assert_eq!(records.len(), 1);
        assert_eq!(
            records[0].sequence_number,
            "49590338271490256608559692538361571095921575989136588898"
        );
        assert_eq!(records[0].partition_key, "1");
        assert_eq!(records[0].approximate_arrival_timestamp, "1570887011763.01");
        assert_eq!(
            "Hello, this is a test.",
            String::from_utf8_lossy(&records[0].raw_data)
        );
    } else {
        panic!("Did not match expected ProcessRecords event.");
    }
}

#[test]
fn parse_checkpoint() {
    let given =
        "{\"action\": \"checkpoint\", \"checkpoint\": \"1234\", \"error\": \"InvalidStateException\"}";
    let expected = Message::Checkpoint {
        checkpoint: Some("1234".to_string()),
        error: Some(CheckpointError::InvalidStateException),
    };

    let actual = decode_message(given).unwrap();
    assert_eq!(actual, expected);
}

#[test]
fn parse_lease_lost() {
    let given = "{\"action\": \"leaseLost\"}";
    let expected = Message::LeaseLost;

    let actual = decode_message(given).unwrap();
    assert_eq!(actual, expected)
}

#[test]
fn parse_shard_end() {
    let given = "{\"action\": \"shardEnded\", \"checkpoint\": \"1234\"}";
    let expected = Message::ShardEnded {
        checkpoint: "1234".to_string(),
    };

    let actual = decode_message(given).unwrap();
    assert_eq!(actual, expected);
}

#[test]
fn parse_shutdown_requested() {
    let given = "{\"action\": \"shutdownRequested\", \"checkpoint\": \"1234\"}";
    let expected = Message::ShutdownRequested {
        checkpoint: "1234".to_string(),
    };

    let actual = decode_message(given).unwrap();
    assert_eq!(actual, expected)
}

fn sample_record() -> Record {
    Record {
        raw_data: b"Hello, this is a test.".to_vec(),
        partition_key: "1".to_string(),
        sequence_number: "49590338271490256608559692538361571095921575989136588898".to_string(),
        sub_sequence_number: Some(7),
        approximate_arrival_timestamp: "1570887011763.01".to_string(),
    }
}

fn assert_round_trip(m: Message) {
    let line = encode_message(&m);
    let back = decode_message(&line).unwrap();
    assert_eq!(back, m);
}

#[test]
fn round_trip_initialize() {
    assert_round_trip(Message::Initialize {
        shard_id: "shard-000001".to_string(),
    });
}

#[test]
fn round_trip_process_records() {
    assert_round_trip(Message::ProcessRecords {
        records: vec![
            sample_record(),
            Record {
                raw_data: vec![0, 1, 2, 255],
                partition_key: "key with \"quotes\"\nand a newline".to_string(),
                sequence_number: "1".to_string(),
                sub_sequence_number: None,
                approximate_arrival_timestamp: "1.5e3".to_string(),
            },
        ],
    });
    assert_round_trip(Message::ProcessRecords { records: vec![] });
}

#[test]
fn round_trip_checkpoint() {
    assert_round_trip(Message::Checkpoint {
        checkpoint: Some("1234".to_string()),
        error: None,
    });
    assert_round_trip(Message::Checkpoint {
        checkpoint: None,
        error: Some(CheckpointError::ThrottlingException),
    });
    assert_round_trip(Message::Checkpoint {
        checkpoint: None,
        error: Some(CheckpointError::Exception("check your point".to_string())),
    });
}

#[test]
fn round_trip_lease_lost() {
    assert_round_trip(Message::LeaseLost);
}

#[test]
fn round_trip_shard_ended() {
    assert_round_trip(Message::ShardEnded {
        checkpoint: "1234".to_string(),
    });
}

#[test]
fn round_trip_shutdown_requested() {
    assert_round_trip(Message::ShutdownRequested {
        checkpoint: "1234".to_string(),
    });
}

#[test]
fn round_trip_sub_sequence_extremes() {
    assert_round_trip(Message::ProcessRecords {
        records: vec![
            Record {
                sub_sequence_number: Some(0),
                ..sample_record()
            },
            Record {
                sub_sequence_number: Some(u64::MAX),
                ..sample_record()
            },
        ],
    });
}

#[test]
fn round_trip_unicode_payload() {
    assert_round_trip(Message::Initialize {
        shard_id: "shard \u{1F600} \t \u{0}".to_string(),
    });
}

#[test]
fn encode_is_canonical() {
    let line = encode_message(&Message::Initialize {
        shard_id: "shard1".to_string(),
    });
    assert_eq!(line, "{\"action\":\"initialize\",\"shardId\":\"shard1\"}\n");
    let status_like = encode_message(&Message::LeaseLost);
    assert_eq!(status_like, "{\"action\":\"leaseLost\"}\n");
}

#[test]
fn rejects_invalid_json() {
    assert_eq!(
        decode_message("{\"action\":"),
        Err(DecodeError::MalformedJson)
    );
    assert_eq!(decode_message(""), Err(DecodeError::MalformedJson));
    assert_eq!(
        decode_message("{\"action\":\"leaseLost\"} trailing"),
        Err(DecodeError::MalformedJson)
    );
}

#[test]
fn rejects_wrong_shape() {
    // unknown action
    assert_eq!(
        decode_message("{\"action\":\"fetch\"}"),
        Err(DecodeError::InvalidMessage)
    );
    // missing required field
    assert_eq!(
        decode_message("{\"action\":\"initialize\"}"),
        Err(DecodeError::InvalidMessage)
    );
    // mistyped field
    assert_eq!(
        decode_message("{\"action\":\"initialize\",\"shardId\":7}"),
        Err(DecodeError::InvalidMessage)
    );
    // duplicated field
    assert_eq!(
        decode_message("{\"action\":\"initialize\",\"shardId\":\"a\",\"shardId\":\"b\"}"),
        Err(DecodeError::InvalidMessage)
    );
    // not an object at all
    assert_eq!(
        decode_message("[1,2,3]"),
        Err(DecodeError::InvalidMessage)
    );
    // record payload that is not base64
    assert_eq!(
        decode_message(
            "{\"action\":\"processRecords\",\"records\":[{\
             \"data\":\"!!!not base64!!!\",\"partitionKey\":\"1\",\
             \"sequenceNumber\":\"1\",\"approximateArrivalTimestamp\":1}]}"
        ),
        Err(DecodeError::InvalidMessage)
    );
    // sub-sequence number that is not an unsigned 64-bit integer
    assert_eq!(
        decode_message(
            "{\"action\":\"processRecords\",\"records\":[{\
             \"data\":\"\",\"partitionKey\":\"1\",\"sequenceNumber\":\"1\",\
             \"subSequenceNumber\":1.5,\"approximateArrivalTimestamp\":1}]}"
        ),
        Err(DecodeError::InvalidMessage)
    );
    assert_eq!(
        decode_message(
            "{\"action\":\"processRecords\",\"records\":[{\
             \"data\":\"\",\"partitionKey\":\"1\",\"sequenceNumber\":\"1\",\
             \"subSequenceNumber\":18446744073709551616,\"approximateArrivalTimestamp\":1}]}"
        ),
        Err(DecodeError::InvalidMessage)
    );
}

#[test]
fn ignores_unknown_fields() {
    let given = "{\"action\":\"initialize\",\"shardId\":\"s\",\"extra\":{\"deep\":[true,null]}}";
    assert_eq!(
        decode_message(given).unwrap(),
        Message::Initialize {
            shard_id: "s".to_string()
        }
    );
}

#[test]
fn error_strings_classify() {
    let cases = [
        (
            "KinesisClientLibDependencyException",
            CheckpointError::KinesisClientLibDependencyException,
            true,
        ),
        (
            "ThrottlingException",
            CheckpointError::ThrottlingException,
            true,
        ),
        (
            "InvalidStateException",
            CheckpointError::InvalidStateException,
            false,
        ),
        (
            "ShutdownException",
            CheckpointError::ShutdownException,
            false,
        ),
        (
            "check your point",
            CheckpointError::Exception("check your point".to_string()),
            false,
        ),
    ];
    for (wire, expected, retryable) in cases {
        let line = format!("{{\"action\":\"checkpoint\",\"error\":\"{}\"}}", wire);
        let decoded = decode_message(&line).unwrap();
        if let Message::Checkpoint { error: Some(e), .. } = decoded {
            assert_eq!(e, expected);
            assert_eq!(e.is_retryable(), retryable);
        } else {
            panic!("expected a checkpoint message with an error");
        }
    }
    assert!(!CheckpointError::UnexpectedResponse.is_retryable());
}

#[test]
fn decodes_string_escapes() {
    let given = "{\"action\":\"initialize\",\"shardId\":\"\\u0041\\n\\t\\\"\\\\\\/\\b\\f\\r\"}";
    let expected = Message::Initialize {
        shard_id: "A\n\t\"\\/\u{8}\u{c}\r".to_string(),
    };
    assert_eq!(decode_message(given).unwrap(), expected);
}

#[test]
fn decodes_surrogate_pairs() {
    let given = "{\"action\":\"initialize\",\"shardId\":\"\\uD83D\\uDE00\"}";
    let expected = Message::Initialize {
        shard_id: "\u{1F600}".to_string(),
    };
    assert_eq!(decode_message(given).unwrap(), expected);
}

#[test]
fn rejects_lone_surrogates() {
    assert_eq!(
        decode_message("{\"action\":\"initialize\",\"shardId\":\"\\uDE00\"}"),
        Err(DecodeError::MalformedJson)
    );
    assert_eq!(
        decode_message("{\"action\":\"initialize\",\"shardId\":\"\\uD83Dx\"}"),
        Err(DecodeError::MalformedJson)
    );
}

#[test]
fn tolerates_whitespace_everywhere() {
    let given = " \t\r\n{ \"action\" :\n\"shardEnded\" ,\t\"checkpoint\" : \"1234\" }\n";
    assert_eq!(
        decode_message(given).unwrap(),
        Message::ShardEnded {
            checkpoint: "1234".to_string()
        }
    );
}

#[test]
fn optional_fields_absent_or_null() {
    let absent = decode_message("{\"action\":\"checkpoint\"}").unwrap();
    assert_eq!(
        absent,
        Message::Checkpoint {
            checkpoint: None,
            error: None
        }
    );
    let null = decode_message("{\"action\":\"checkpoint\",\"checkpoint\":null,\"error\":null}")
        .unwrap();
    assert_eq!(absent, null);

    let no_sub = decode_message(
        "{\"action\":\"processRecords\",\"records\":[{\
         \"data\":\"\",\"partitionKey\":\"1\",\"sequenceNumber\":\"1\",\
         \"approximateArrivalTimestamp\":1}]}",
    )
    .unwrap();
    let null_sub = decode_message(
        "{\"action\":\"processRecords\",\"records\":[{\
         \"data\":\"\",\"partitionKey\":\"1\",\"sequenceNumber\":\"1\",\
         \"subSequenceNumber\":null,\"approximateArrivalTimestamp\":1}]}",
    )
    .unwrap();
    assert_eq!(no_sub, null_sub);
    if let Message::ProcessRecords { records } = no_sub {
        assert_eq!(records[0].sub_sequence_number, None);
        assert_eq!(records[0].raw_data.len(), 0);
    } else {
        panic!("expected a ProcessRecords message");
    }
}
