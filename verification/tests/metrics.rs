use perf_client::recovery_metrics_logger::{
    push_decimal,
    IPAConnectionContext,
    RecoveryMetricsLogger,
    RecoverySample,
    HEADER_ROW,
};

fn sample() -> RecoverySample {
    RecoverySample {
        timestamp_nanos: 1_700_000_000_123_456_789,
        connection_id: 7,
        min_rtt: 1_000_000,
        smoothed_rtt: 1_250_000,
        latest_rtt: 1_100_000,
        rtt_variance: 50_000,
        max_ack_delay: 25_000_000,
        pto_count: 0,
        congestion_window: 12_000,
        bytes_in_flight: 4096,
    }
}

#[test]
fn header_names_the_ten_columns() {
    assert_eq!(
        HEADER_ROW,
        "time,conn_id,min_rtt,smoothed_rtt,latest_rtt,rtt_variance,max_ack_delay,pto_count,congestion_window,bytes_in_flight\n"
    );
    assert_eq!(HEADER_ROW.trim_end().split(',').count(), 10);
}

#[test]
fn new_logger_writes_the_header_at_once() {
    let mut logger = RecoveryMetricsLogger::new(Vec::new());
    assert_eq!(logger.flush(), HEADER_ROW.as_bytes().to_vec());
}

#[test]
fn header_goes_behind_what_the_sink_holds() {
    let mut logger = RecoveryMetricsLogger::new(b"# run 1\n".to_vec());
    let mut expected = b"# run 1\n".to_vec();
    expected.extend_from_slice(HEADER_ROW.as_bytes());
    assert_eq!(logger.flush(), expected);
}

#[test]
fn one_row_per_report() {
    let mut logger = RecoveryMetricsLogger::new(Vec::new());
    let mut context = logger.create_connection_context();
    logger.on_recovery_metrics(&mut context, &sample());
    let mut second = sample();
    second.timestamp_nanos += 1;
    second.pto_count = 3;
    logger.on_recovery_metrics(&mut context, &second);
    let written = String::from_utf8(logger.flush()).unwrap();
    let expected = format!(
        "{}{}\n{}\n",
        HEADER_ROW,
        "1700000000123456789,7,1000000,1250000,1100000,50000,25000000,0,12000,4096",
        "1700000000123456790,7,1000000,1250000,1100000,50000,25000000,3,12000,4096",
    );
    assert_eq!(written, expected);
}

#[test]
fn every_row_has_ten_fields() {
    let mut logger = RecoveryMetricsLogger::new(Vec::new());
    let mut context = logger.create_connection_context();
    for _ in 0..5 {
        logger.on_recovery_metrics(&mut context, &sample());
    }
    let written = String::from_utf8(logger.flush()).unwrap();
    let lines: Vec<&str> = written.lines().collect();
    assert_eq!(lines.len(), 6);
    for line in lines {
        assert_eq!(line.split(',').count(), 10);
    }
    assert!(written.ends_with('\n'));
}

#[test]
fn extreme_values_are_written_in_full() {
    let mut logger = RecoveryMetricsLogger::new(Vec::new());
    let mut context = logger.create_connection_context();
    logger.flush();
    let extreme = RecoverySample {
        timestamp_nanos: u64::MAX,
        connection_id: 0,
        min_rtt: u128::MAX,
        smoothed_rtt: 0,
        latest_rtt: 10,
        rtt_variance: 9,
        max_ack_delay: 99,
        pto_count: u32::MAX,
        congestion_window: 100,
        bytes_in_flight: 0,
    };
    logger.on_recovery_metrics(&mut context, &extreme);
    assert_eq!(
        String::from_utf8(logger.flush()).unwrap(),
        "18446744073709551615,0,340282366920938463463374607431768211455,0,10,9,99,4294967295,100,0\n"
    );
}

#[test]
fn context_carries_nothing() {
    let mut logger = RecoveryMetricsLogger::new(Vec::new());
    logger.flush();
    let context = logger.create_connection_context();
    assert_eq!(context, IPAConnectionContext {});
    assert_eq!(std::mem::size_of::<IPAConnectionContext>(), 0);
    assert!(logger.flush().is_empty());
}

#[test]
fn flush_empties_the_sink() {
    let mut logger = RecoveryMetricsLogger::new(Vec::new());
    assert!(!logger.flush().is_empty());
    assert!(logger.flush().is_empty());
    let mut context = logger.create_connection_context();
    logger.on_recovery_metrics(&mut context, &sample());
    assert_eq!(
        logger.flush(),
        b"1700000000123456789,7,1000000,1250000,1100000,50000,25000000,0,12000,4096\n".to_vec()
    );
    assert!(logger.flush().is_empty());
}

#[test]
fn decimal_digits_have_no_leading_zeros() {
    let mut out = Vec::new();
    push_decimal(&mut out, 0);
    out.push(b' ');
    push_decimal(&mut out, 9);
    out.push(b' ');
    push_decimal(&mut out, 10);
    out.push(b' ');
    push_decimal(&mut out, 1_000_000);
    assert_eq!(out, b"0 9 10 1000000".to_vec());
}

#[test]
fn decimal_digits_agree_with_the_standard_rendering() {
    let mut value: u128 = 1;
    for _ in 0..128 {
        let mut out = Vec::new();
        push_decimal(&mut out, value);
        assert_eq!(String::from_utf8(out).unwrap(), format!("{}", value));
        value = value.wrapping_mul(3).wrapping_add(value >> 3);
    }
}
