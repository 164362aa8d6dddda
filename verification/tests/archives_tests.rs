use chrono::{DateTime, Utc};
use dd_delivery::archives::{
    ArchivesEncoder, AwsAuthentication, ConfigError, DatadogArchivesSinkConfig,
    DatadogS3RequestBuilder, RegionOrEndpoint, S3Config, S3Options, S3StorageClass,
};
use dd_delivery::event::{
    resolve_finalizers, EventFinalizer, FinalizerStatus, LogEvent, Value,
};
use dd_delivery::retry::RequestConfig;
use dd_delivery::strutil::collapse_double_slash;
use std::collections::BTreeMap;

fn now_millis() -> u64 {
    Utc::now().timestamp_millis() as u64
}

fn test_timestamp_millis() -> u64 {
    DateTime::parse_from_rfc3339("2021-08-23T18:00:27.879+02:00")
        .expect("invalid test case")
        .with_timezone(&Utc)
        .timestamp_millis() as u64
}

fn default_s3_config() -> S3Config {
    S3Config {
        options: S3Options::unspecified(),
        region: RegionOrEndpoint { region: None, endpoint: None },
        auth: AwsAuthentication::Automatic,
    }
}

/// check that _id is:
/// - 18 bytes,
/// - base64-encoded,
/// - first 6 bytes - a "now" timestamp in millis
fn validate_event_id(id: &str) {
    let bytes = base64::decode(id).expect("_id is not base64-encoded");
    assert_eq!(bytes.len(), 18);
    let mut timestamp: [u8; 8] = [0; 8];
    for (i, b) in bytes[..6].iter().enumerate() {
        timestamp[i + 2] = *b;
    }
    let timestamp = i64::from_be_bytes(timestamp);
    assert!(Utc::now().timestamp_millis() - timestamp < 1000);
}

#[test]
fn datadog_archives_generate_config() {
    let config = DatadogArchivesSinkConfig {
        service: String::new(),
        bucket: String::new(),
        key_prefix: None,
        request: RequestConfig::unspecified(),
        aws_s3: Some(default_s3_config()),
    };
    assert_eq!(config.service, "");
    assert_eq!(config.bucket, "");
    assert!(config.key_prefix.is_none());
    assert!(config.aws_s3.is_some());
}

#[test]
fn encodes_event() {
    let mut event = LogEvent::new();
    event.insert("message".to_owned(), Value::Str("test message".to_owned()));
    event.insert("service".to_owned(), Value::Str("test-service".to_owned()));
    event.insert(
        "not_a_reserved_attribute".to_owned(),
        Value::Str("value".to_owned()),
    );
    event.insert(
        "tags".to_owned(),
        Value::Arr(vec![
            Value::Str("tag1:value1".to_owned()),
            Value::Str("tag2:value2".to_owned()),
        ]),
    );
    event.insert("timestamp".to_owned(), Value::Ts(test_timestamp_millis()));

    let mut encoding = ArchivesEncoder::new();
    let encoded = encoding.encode_event(event, now_millis());
    let json: BTreeMap<String, serde_json::Value> =
        serde_json::from_str(&encoded).unwrap();

    validate_event_id(
        json.get("_id")
            .expect("_id not found")
            .as_str()
            .expect("_id is not a string"),
    );

    assert_eq!(json.len(), 6); // _id, message, date, service, tags, attributes
    assert_eq!(
        json.get("message")
            .expect("message not found")
            .as_str()
            .expect("message is not a string"),
        "test message"
    );
    assert_eq!(
        json.get("date")
            .expect("date not found")
            .as_str()
            .expect("date is not a string"),
        "2021-08-23T16:00:27.879Z"
    );
    assert_eq!(
        json.get("service")
            .expect("service not found")
            .as_str()
            .expect("service is not a string"),
        "test-service"
    );
    assert_eq!(
        json.get("tags")
            .expect("tags not found")
            .as_array()
            .expect("service is not an array")
            .to_owned(),
        vec!["tag1:value1", "tag2:value2"]
    );

    let attributes = json
        .get("attributes")
        .expect("attributes not found")
        .as_object()
        .expect("attributes is not an object");
    assert_eq!(attributes.len(), 1);
    assert_eq!(
        attributes
            .get("not_a_reserved_attribute")
            .expect("not_a_reserved_attribute wasn't moved to attributes")
            .as_str()
            .expect("not_a_reserved_attribute is not a string"),
        "value"
    );
}

#[test]
fn generates_valid_key_for_an_event() {
    let mut log = LogEvent::new();
    log.insert("message".to_owned(), Value::Str("test message".to_owned()));
    log.insert("timestamp".to_owned(), Value::Ts(test_timestamp_millis()));

    let partitioner = DatadogArchivesSinkConfig::build_partitioner();
    let key = partitioner.partition(&log).expect("key wasn't provided");

    assert_eq!(key, "/dt=20210823/hour=16/");
}

#[test]
fn generates_valid_id() {
    let mut encoding = ArchivesEncoder::new();

    let mut log1 = LogEvent::new();
    log1.insert("message".to_owned(), Value::Str("test event 1".to_owned()));
    let encoded = encoding.encode_event(log1, now_millis());
    let json: BTreeMap<String, serde_json::Value> =
        serde_json::from_str(&encoded).unwrap();
    let id1 = json
        .get("_id")
        .expect("_id not found")
        .as_str()
        .expect("_id is not a string")
        .to_owned();
    validate_event_id(&id1);

    // check that id is different for the next event
    let mut log2 = LogEvent::new();
    log2.insert("message".to_owned(), Value::Str("test event 2".to_owned()));
    let encoded = encoding.encode_event(log2, now_millis());
    let json: BTreeMap<String, serde_json::Value> =
        serde_json::from_str(&encoded).unwrap();
    let id2 = json
        .get("_id")
        .expect("_id not found")
        .as_str()
        .expect("_id is not a string")
        .to_owned();
    validate_event_id(&id2);
    assert_ne!(id1, id2);

    // the trailing four identifier bytes carry the advancing counter
    let b1 = base64::decode(&id1).unwrap();
    let b2 = base64::decode(&id2).unwrap();
    let c1 = u32::from_be_bytes([b1[14], b1[15], b1[16], b1[17]]);
    let c2 = u32::from_be_bytes([b2[14], b2[15], b2[16], b2[17]]);
    assert_eq!(c2, c1.wrapping_add(1));
    // the eight random bytes are process-stable
    assert_eq!(&b1[6..14], &b2[6..14]);
}

#[test]
fn generates_date_if_missing() {
    let mut log = LogEvent::new();
    log.insert("message".to_owned(), Value::Str("test message".to_owned()));
    let mut encoding = ArchivesEncoder::new();
    let encoded = encoding.encode_event(log, now_millis());
    let json: BTreeMap<String, serde_json::Value> =
        serde_json::from_str(&encoded).unwrap();

    let date = DateTime::parse_from_rfc3339(
        json.get("date")
            .expect("date not found")
            .as_str()
            .expect("date is not a string"),
    )
    .expect("date is not in an rfc3339 format");

    // check that it is a recent timestamp
    assert!(Utc::now().timestamp() - date.timestamp() < 1000);
}

#[test]
fn s3_build_request() {
    let fake_buf: Vec<u8> = Vec::new();
    let mut log = LogEvent::new();
    log.insert("message".to_owned(), Value::Str("test message".to_owned()));
    log.insert("timestamp".to_owned(), Value::Ts(test_timestamp_millis()));
    let partitioner = DatadogArchivesSinkConfig::build_partitioner();
    let key = partitioner.partition(&log).expect("key wasn't provided");

    let request_builder = DatadogS3RequestBuilder::new(
        "dd-logs".to_owned(),
        Some("audit".to_owned()),
        default_s3_config(),
    );

    let (metadata, _events) = request_builder.split_input((key, vec![log]));
    let req = request_builder.build_request(metadata, fake_buf.clone());
    let expected_key_prefix = "audit/dt=20210823/hour=16/";
    let expected_key_ext = ".json.gz";
    println!("{}", req.metadata.partition_key);
    assert!(req.metadata.partition_key.starts_with(expected_key_prefix));
    assert!(req.metadata.partition_key.ends_with(expected_key_ext));
    let uuid1 = &req.metadata.partition_key
        [expected_key_prefix.len()..req.metadata.partition_key.len() - expected_key_ext.len()];
    assert_eq!(uuid1.len(), 36);
    for (i, c) in uuid1.chars().enumerate() {
        if i == 8 || i == 13 || i == 18 || i == 23 {
            assert_eq!(c, '-');
        } else {
            assert!(c.is_ascii_hexdigit() && !c.is_ascii_uppercase());
        }
    }
    let uuid1 = uuid1.to_owned();

    // check that the second batch has a different object name
    let mut log2 = LogEvent::new();
    log2.insert("message".to_owned(), Value::Str("test message".to_owned()));
    log2.insert("timestamp".to_owned(), Value::Ts(test_timestamp_millis()));
    let key = partitioner.partition(&log2).expect("key wasn't provided");
    let (metadata, _events) = request_builder.split_input((key, vec![log2]));
    let req = request_builder.build_request(metadata, fake_buf);
    let uuid2 = &req.metadata.partition_key
        [expected_key_prefix.len()..req.metadata.partition_key.len() - expected_key_ext.len()];
    assert_ne!(uuid1, uuid2);
}

#[test]
fn error_if_unsupported_s3_storage_class() {
    for (class, supported) in [
        (S3StorageClass::Standard, true),
        (S3StorageClass::StandardIa, true),
        (S3StorageClass::IntelligentTiering, true),
        (S3StorageClass::OnezoneIa, true),
        (S3StorageClass::ReducedRedundancy, true),
        (S3StorageClass::DeepArchive, false),
        (S3StorageClass::Glacier, false),
    ] {
        let mut options = S3Options::unspecified();
        options.storage_class = Some(class);
        let config = DatadogArchivesSinkConfig {
            service: "aws_s3".to_owned(),
            bucket: "vector-datadog-archives".to_owned(),
            key_prefix: Some("logs/".to_owned()),
            request: RequestConfig::unspecified(),
            aws_s3: Some(S3Config {
                options,
                region: RegionOrEndpoint {
                    region: Some("us-east-1".to_owned()),
                    endpoint: None,
                },
                auth: AwsAuthentication::Automatic,
            }),
        };

        let res = config.new();

        if supported {
            assert!(res.is_ok());
        } else {
            assert_eq!(
                res.err().unwrap().message(),
                format!(r#"Unsupported storage class: {:?}"#, class)
            );
        }
    }
}

#[test]
fn error_if_unsupported_service() {
    let config = DatadogArchivesSinkConfig {
        service: "gcs".to_owned(),
        bucket: "dd-logs".to_owned(),
        key_prefix: None,
        request: RequestConfig::unspecified(),
        aws_s3: None,
    };
    match config.new() {
        Err(e @ ConfigError::UnsupportedService { .. }) => {
            assert_eq!(e.message(), "Unsupported service: gcs");
        }
        _ => panic!("expected an unsupported-service error"),
    }
}

#[test]
fn reserved_attributes_stay_top_level() {
    // every reserved key present stays at the top; everything else moves
    // under `attributes`, and no key appears in both places
    let mut event = LogEvent::new();
    event.insert("message".to_owned(), Value::Str("m".to_owned()));
    event.insert("host".to_owned(), Value::Str("h".to_owned()));
    event.insert("status".to_owned(), Value::Str("info".to_owned()));
    event.insert("trace_id".to_owned(), Value::Str("t1".to_owned()));
    event.insert("custom_a".to_owned(), Value::Int(7));
    event.insert("custom_b".to_owned(), Value::Bool(true));
    event.insert("timestamp".to_owned(), Value::Ts(test_timestamp_millis()));

    let mut encoding = ArchivesEncoder::new();
    let encoded = encoding.encode_event(event, now_millis());
    let json: BTreeMap<String, serde_json::Value> =
        serde_json::from_str(&encoded).unwrap();

    let reserved = [
        "_id", "date", "message", "host", "source", "service", "status", "tags", "trace_id",
        "span_id",
    ];
    for key in json.keys() {
        assert!(reserved.contains(&key.as_str()) || key == "attributes");
    }
    let attributes = json.get("attributes").unwrap().as_object().unwrap();
    assert_eq!(attributes.len(), 2);
    assert_eq!(attributes.get("custom_a").unwrap().as_i64().unwrap(), 7);
    assert_eq!(attributes.get("custom_b").unwrap().as_bool().unwrap(), true);
    for key in attributes.keys() {
        assert!(!json.contains_key(key) || key == "attributes");
    }
}

#[test]
fn ndjson_batch_round_trips() {
    // two events framed as newline-delimited JSON decode back to the
    // normalized schema
    let mut e1 = LogEvent::new();
    e1.insert("message".to_owned(), Value::Str("first".to_owned()));
    e1.insert("service".to_owned(), Value::Str("svc".to_owned()));
    e1.insert("timestamp".to_owned(), Value::Ts(test_timestamp_millis()));
    let mut e2 = LogEvent::new();
    e2.insert("message".to_owned(), Value::Str("second\nline".to_owned()));
    e2.insert("extra".to_owned(), Value::Str("x".to_owned()));
    e2.insert("timestamp".to_owned(), Value::Ts(test_timestamp_millis()));

    let mut encoding = ArchivesEncoder::new();
    let payload = encoding.encode_batch(vec![e1, e2], now_millis());

    let lines: Vec<&str> = payload.lines().collect();
    assert_eq!(lines.len(), 2);
    assert!(payload.ends_with('\n'));

    let r1: BTreeMap<String, serde_json::Value> = serde_json::from_str(lines[0]).unwrap();
    let r2: BTreeMap<String, serde_json::Value> = serde_json::from_str(lines[1]).unwrap();
    assert_eq!(r1.get("message").unwrap().as_str().unwrap(), "first");
    assert_eq!(r1.get("service").unwrap().as_str().unwrap(), "svc");
    assert_eq!(
        r1.get("date").unwrap().as_str().unwrap(),
        "2021-08-23T16:00:27.879Z"
    );
    // the raw newline in the message survives the framing inside one record
    assert_eq!(r2.get("message").unwrap().as_str().unwrap(), "second\nline");
    assert_eq!(
        r2.get("attributes")
            .unwrap()
            .as_object()
            .unwrap()
            .get("extra")
            .unwrap()
            .as_str()
            .unwrap(),
        "x"
    );
}

#[test]
fn object_key_collapses_double_slash() {
    assert_eq!(collapse_double_slash("audit//dt=1/"), "audit/dt=1/");
    assert_eq!(collapse_double_slash("//a//b//"), "/a/b/");
    assert_eq!(collapse_double_slash("///"), "//");
    assert_eq!(collapse_double_slash("no-slash"), "no-slash");
}

#[test]
fn json_escaping_round_trips() {
    let mut event = LogEvent::new();
    event.insert(
        "message".to_owned(),
        Value::Str("he said \"hi\" \\ then\ttabbed \u{1}".to_owned()),
    );
    event.insert("host".to_owned(), Value::Str("caf\u{e9}.example".to_owned()));
    event.insert("low".to_owned(), Value::Int(i64::MIN));
    event.insert("high".to_owned(), Value::Int(i64::MAX));
    event.insert("flag".to_owned(), Value::Bool(false));
    event.insert("timestamp".to_owned(), Value::Ts(test_timestamp_millis()));

    let mut encoding = ArchivesEncoder::new();
    let encoded = encoding.encode_event(event, now_millis());
    let json: BTreeMap<String, serde_json::Value> = serde_json::from_str(&encoded).unwrap();

    assert_eq!(
        json.get("message").unwrap().as_str().unwrap(),
        "he said \"hi\" \\ then\ttabbed \u{1}"
    );
    assert_eq!(json.get("host").unwrap().as_str().unwrap(), "caf\u{e9}.example");
    let attributes = json.get("attributes").unwrap().as_object().unwrap();
    assert_eq!(attributes.get("low").unwrap().as_i64().unwrap(), i64::MIN);
    assert_eq!(attributes.get("high").unwrap().as_i64().unwrap(), i64::MAX);
    assert_eq!(attributes.get("flag").unwrap().as_bool().unwrap(), false);
}

#[test]
fn finalizers_move_through_split_and_build() {
    let mut log1 = LogEvent::new();
    log1.insert("message".to_owned(), Value::Str("first".to_owned()));
    log1.insert("timestamp".to_owned(), Value::Ts(test_timestamp_millis()));
    log1.finalizers.push(EventFinalizer { token: 11 });
    log1.finalizers.push(EventFinalizer { token: 12 });
    let mut log2 = LogEvent::new();
    log2.insert("message".to_owned(), Value::Str("second".to_owned()));
    log2.insert("timestamp".to_owned(), Value::Ts(test_timestamp_millis()));
    log2.finalizers.push(EventFinalizer { token: 21 });

    let request_builder = DatadogS3RequestBuilder::new(
        "dd-logs".to_owned(),
        Some("audit".to_owned()),
        default_s3_config(),
    );
    let key = "/dt=20210823/hour=16/".to_owned();
    let (metadata, events) = request_builder.split_input((key, vec![log1, log2]));

    // the handles were moved off the events into the metadata, in order
    let tokens: Vec<u64> = metadata.finalizers.iter().map(|f| f.token).collect();
    assert_eq!(tokens, vec![11, 12, 21]);
    assert_eq!(events.len(), 2);
    for e in &events {
        assert!(e.finalizers.is_empty());
    }

    // the request carries the same handles, untouched
    let req = request_builder.build_request(metadata, Vec::new());
    let tokens: Vec<u64> = req.metadata.finalizers.iter().map(|f| f.token).collect();
    assert_eq!(tokens, vec![11, 12, 21]);

    // a terminal outcome resolves every handle of the request at once
    let signals = resolve_finalizers(
        req.metadata.finalizers,
        FinalizerStatus::Delivered { byte_size: req.metadata.byte_size },
    );
    assert_eq!(signals.len(), 3);
    for (signal, token) in signals.iter().zip([11u64, 12, 21]) {
        assert_eq!(signal.token, token);
        assert_eq!(
            signal.status,
            FinalizerStatus::Delivered { byte_size: req.metadata.byte_size }
        );
    }
}
