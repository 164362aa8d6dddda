use chrono::Utc;
use dd_delivery::event::{LogEvent, Value};
use dd_delivery::generator::{
    total_pacing_millis, GeneratorConfig, GeneratorConfigError, OutputFormat, SourceAction,
    SourceState,
};
use dd_delivery::schema::LogSchema;

fn now_millis() -> u64 {
    Utc::now().timestamp_millis() as u64
}

/// Steps the source to completion with no shutdown, collecting the
/// produced events and the planned pauses.
fn runit(config: GeneratorConfig) -> (Vec<LogEvent>, u64) {
    let schema = LogSchema::default_schema();
    let mut state = SourceState::new(config.count);
    let mut events = Vec::new();
    let mut total_delay: u64 = 0;
    loop {
        match state.step(config.interval_millis, false) {
            SourceAction::Done => break,
            SourceAction::Emit { seq_no, delay_millis } => {
                total_delay += delay_millis;
                let line = config.format.generate_line(seq_no);
                events.push(dd_delivery::generator::line_to_event(
                    line,
                    &schema,
                    now_millis(),
                ));
            }
        }
    }
    (events, total_delay)
}

fn message_of(event: &LogEvent) -> String {
    match event.get("message") {
        Some(Value::Str(s)) => s.clone(),
        _ => panic!("message is not a string"),
    }
}

#[test]
fn generator_generate_config() {
    let config = GeneratorConfig::default_config();
    assert_eq!(config.interval_millis, 1000);
    assert_eq!(config.count, usize::MAX / 2);
    assert!(matches!(config.format, OutputFormat::Json));
}

#[test]
fn config_shuffle_lines_not_empty() {
    let empty_lines: Vec<String> = Vec::new();

    let errant_config = OutputFormat::Shuffle {
        sequence: false,
        lines: empty_lines,
    };

    assert_eq!(
        errant_config.validate(),
        Err(GeneratorConfigError::ShuffleGeneratorItemsEmpty)
    );
    assert_eq!(
        GeneratorConfigError::ShuffleGeneratorItemsEmpty.message(),
        "A non-empty list of lines is required for the shuffle format"
    );
}

#[test]
fn shuffle_generator_copies_lines() {
    let lines = vec![
        "one".to_owned(),
        "two".to_owned(),
        "three".to_owned(),
        "four".to_owned(),
    ];
    let config = GeneratorConfig::repeat(lines, 5, 0);
    let (events, _) = runit(config);

    let lines = ["one", "two", "three", "four"];

    assert_eq!(events.len(), 5);
    for event in &events {
        let message = message_of(event);
        assert!(lines.contains(&message.as_str()));
    }
}

#[test]
fn shuffle_generator_limits_count() {
    let config = GeneratorConfig::repeat(vec!["one".to_owned(), "two".to_owned()], 5, 0);
    let (events, _) = runit(config);
    assert_eq!(events.len(), 5);
}

#[test]
fn shuffle_generator_adds_sequence() {
    let config = GeneratorConfig {
        interval_millis: 0,
        count: 5,
        format: OutputFormat::Shuffle {
            sequence: true,
            lines: vec!["one".to_owned(), "two".to_owned()],
        },
    };
    let (events, _) = runit(config);

    assert_eq!(events.len(), 5);
    for (n, event) in events.iter().enumerate() {
        let message = message_of(event);
        assert!(message.starts_with(&n.to_string()));
    }
}

#[test]
fn shuffle_generator_obeys_interval() {
    let config = GeneratorConfig::repeat(vec!["one".to_owned(), "two".to_owned()], 3, 1000);
    let (events, total_delay) = runit(config);

    assert_eq!(events.len(), 3);
    // the first tick fires at once; the two others wait one interval each
    assert!(total_delay >= 2000);
    assert_eq!(total_delay, 2000);
    assert_eq!(total_pacing_millis(1000, 3), Some(2000));
}

#[test]
fn zero_interval_disables_pacing() {
    let config = GeneratorConfig::repeat(vec!["x".to_owned()], 100, 0);
    let (events, total_delay) = runit(config);
    assert_eq!(events.len(), 100);
    assert_eq!(total_delay, 0);
    assert_eq!(total_pacing_millis(0, 100), Some(0));
    // a total that cannot be represented is reported, not wrapped
    assert_eq!(total_pacing_millis(u64::MAX, 3), None);
    assert_eq!(total_pacing_millis(u64::MAX, 1), Some(0));
}

#[test]
fn zero_count_yields_zero_events() {
    let config = GeneratorConfig::repeat(vec!["x".to_owned()], 0, 1000);
    let (events, total_delay) = runit(config);
    assert_eq!(events.len(), 0);
    assert_eq!(total_delay, 0);
}

#[test]
fn shutdown_stops_the_source() {
    let mut state = SourceState::new(10);
    assert!(matches!(
        state.step(0, false),
        SourceAction::Emit { seq_no: 0, .. }
    ));
    assert!(matches!(state.step(0, true), SourceAction::Done));
    assert_eq!(state.emitted, 1);
}

#[test]
fn generated_events_carry_source_type_and_timestamp() {
    let before = now_millis();
    let config = GeneratorConfig {
        interval_millis: 0,
        count: 5,
        format: OutputFormat::Shuffle {
            sequence: true,
            lines: vec!["a".to_owned(), "b".to_owned()],
        },
    };
    let (events, _) = runit(config);
    let after = now_millis();

    assert_eq!(events.len(), 5);
    for (n, event) in events.iter().enumerate() {
        let message = message_of(event);
        let expected_a = format!("{} a", n);
        let expected_b = format!("{} b", n);
        assert!(message == expected_a || message == expected_b);
        match event.get("source_type") {
            Some(Value::Str(s)) => assert_eq!(s, "generator"),
            _ => panic!("source_type missing"),
        }
        match event.get("timestamp") {
            Some(Value::Ts(ms)) => assert!(before <= *ms && *ms <= after + 1000),
            _ => panic!("timestamp missing"),
        }
    }
}

#[test]
fn apache_common_format_generates_output() {
    let config = GeneratorConfig {
        interval_millis: 0,
        count: 5,
        format: OutputFormat::ApacheCommon,
    };
    let (events, _) = runit(config);
    assert_eq!(events.len(), 5);
    for event in &events {
        assert!(!message_of(event).is_empty());
    }
}

#[test]
fn apache_error_format_generates_output() {
    let config = GeneratorConfig {
        interval_millis: 0,
        count: 5,
        format: OutputFormat::ApacheError,
    };
    let (events, _) = runit(config);
    assert_eq!(events.len(), 5);
    for event in &events {
        assert!(!message_of(event).is_empty());
    }
}

#[test]
fn syslog_5424_format_generates_output() {
    let config = GeneratorConfig {
        interval_millis: 0,
        count: 5,
        format: OutputFormat::Syslog,
    };
    let (events, _) = runit(config);
    assert_eq!(events.len(), 5);
    for event in &events {
        assert!(!message_of(event).is_empty());
    }
}

#[test]
fn syslog_3164_format_generates_output() {
    let config = GeneratorConfig {
        interval_millis: 0,
        count: 5,
        format: OutputFormat::BsdSyslog,
    };
    let (events, _) = runit(config);
    assert_eq!(events.len(), 5);
    for event in &events {
        assert!(!message_of(event).is_empty());
    }
}

#[test]
fn json_format_generates_output() {
    let config = GeneratorConfig {
        interval_millis: 0,
        count: 5,
        format: OutputFormat::Json,
    };
    let (events, _) = runit(config);
    assert_eq!(events.len(), 5);
    for event in &events {
        let message = message_of(event);
        assert!(serde_json::from_str::<serde_json::Value>(&message).is_ok());
    }
}
