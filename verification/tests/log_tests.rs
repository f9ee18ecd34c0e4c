use cflib_rust::error::Error;
use cflib_rust::log::decode_sample;
use cflib_rust::log::Log;
use cflib_rust::log::LogVariable;

fn toc_var(name: &str, width: u8) -> LogVariable {
    LogVariable {
        name: String::from(name),
        width,
    }
}

fn flight_toc() -> Vec<LogVariable> {
    vec![
        toc_var("stateEstimate.roll", 4),
        toc_var("stateEstimate.pitch", 4),
        toc_var("pm.vbat", 2),
        toc_var("sys.canfly", 1),
    ]
}

#[test]
fn names_lists_the_table_of_contents() {
    let log = Log::new(flight_toc());
    assert_eq!(
        log.names(),
        vec![
            "stateEstimate.roll",
            "stateEstimate.pitch",
            "pm.vbat",
            "sys.canfly"
        ]
    );
}

#[test]
fn identifiers_come_from_a_monotone_counter() {
    let mut log = Log::new(flight_toc());
    let a = log.create_block().unwrap();
    let b = log.create_block().unwrap();
    // Identifiers are never reused, even after a release.
    a.release(&mut log);
    let c = log.create_block().unwrap();
    assert_eq!(c.block_id(), 2);
    assert_eq!(b.block_id(), 1);
}

#[test]
fn the_identifier_pool_runs_out() {
    let mut log = Log::new(Vec::new());
    for _ in 0..255 {
        let block = log.create_block().unwrap();
        block.release(&mut log);
    }
    assert!(matches!(log.create_block(), Err(Error::Protocol)));
}

#[test]
fn unknown_variable_is_refused_as_validation_error() {
    let mut log = Log::new(flight_toc());
    let mut block = log.create_block().unwrap();
    let result = block.add_variable(&mut log, "stateEstimate.yaw");
    assert!(matches!(result, Err(Error::Validation)));
    // The block survived and still accepts known variables.
    assert!(block.add_variable(&mut log, "stateEstimate.roll").is_ok());
    block.release(&mut log);
}

#[test]
fn an_overfull_block_is_refused_as_protocol_error() {
    let mut toc = flight_toc();
    toc.push(toc_var("big.one", 20));
    toc.push(toc_var("big.two", 20));
    let mut log = Log::new(toc);
    let mut block = log.create_block().unwrap();
    assert!(block.add_variable(&mut log, "big.one").is_ok());
    // 20 + 20 bytes would exceed the block's sample payload budget.
    let result = block.add_variable(&mut log, "big.two");
    assert!(matches!(result, Err(Error::Protocol)));
    // The failed addition did not transition the block: a small variable
    // still fits.
    assert!(block.add_variable(&mut log, "sys.canfly").is_ok());
    block.release(&mut log);
}

#[test]
fn out_of_range_periods_are_refused_before_anything_is_sent() {
    let mut log = Log::new(flight_toc());

    let block = log.create_block().unwrap();
    assert!(matches!(
        block.start(&mut log, 5),
        Err(Error::Validation)
    ));

    let block = log.create_block().unwrap();
    assert!(matches!(
        block.start(&mut log, 2560),
        Err(Error::Validation)
    ));

    let block = log.create_block().unwrap();
    let stream = block.start(&mut log, 2559).unwrap();
    stream.release(&mut log);
}

#[test]
fn start_stop_round_trip_keeps_the_identifier() {
    let mut log = Log::new(flight_toc());
    let mut block = log.create_block().unwrap();
    block.add_variable(&mut log, "pm.vbat").unwrap();
    let created_id = block.block_id();

    let stream = block.start(&mut log, 100).unwrap();
    assert_eq!(stream.block_id(), created_id);

    let block = stream.stop(&mut log).unwrap();
    assert_eq!(block.block_id(), created_id);

    // The returned handle can be started again with a different period.
    let stream = block.start(&mut log, 50).unwrap();
    assert_eq!(stream.block_id(), created_id);
    stream.release(&mut log);
}

#[test]
fn dropping_a_stream_without_stop_releases_exactly_once() {
    let mut log = Log::new(flight_toc());
    let block = log.create_block().unwrap();
    let id = block.block_id();
    let stream = block.start(&mut log, 100).unwrap();
    assert_eq!(log.delete_count(id), 0);

    // The handle goes away without an explicit stop.
    stream.release(&mut log);
    assert_eq!(log.delete_count(id), 1);

    // A racing second release of the same block is a no-op.
    log.release_block(id);
    assert_eq!(log.delete_count(id), 1);
}

#[test]
fn an_explicit_stop_does_not_deallocate_the_block() {
    let mut log = Log::new(flight_toc());
    let block = log.create_block().unwrap();
    let id = block.block_id();
    let stream = block.start(&mut log, 100).unwrap();
    let block = stream.stop(&mut log).unwrap();
    assert_eq!(log.delete_count(id), 0);
    block.release(&mut log);
    assert_eq!(log.delete_count(id), 1);
}

#[test]
fn next_reports_pending_and_lost_states() {
    let mut log = Log::new(flight_toc());
    let block = log.create_block().unwrap();
    let mut stream = block.start(&mut log, 100).unwrap();

    // Nothing arrived yet: the caller should wait and ask again.
    assert!(matches!(stream.next(&log), Ok(None)));

    // Once the link is down and nothing is buffered, the read resolves
    // with a connection-lost error instead of hanging.
    log.mark_disconnected();
    assert!(matches!(stream.next(&log), Err(Error::ConnectionLost)));
}

#[test]
fn buffered_samples_survive_a_lost_connection() {
    let mut log = Log::new(flight_toc());
    let mut block = log.create_block().unwrap();
    block.add_variable(&mut log, "sys.canfly").unwrap();
    let mut stream = block.start(&mut log, 100).unwrap();
    stream.deliver_packet(vec![1, 0, 0, 1]);
    log.mark_disconnected();
    let sample = stream.next(&log).unwrap().unwrap();
    assert_eq!(sample.timestamp, 1);
    assert!(matches!(stream.next(&log), Err(Error::ConnectionLost)));
}

#[test]
fn malformed_packets_are_a_protocol_error() {
    let mut log = Log::new(flight_toc());
    let mut block = log.create_block().unwrap();
    block.add_variable(&mut log, "pm.vbat").unwrap();
    let mut stream = block.start(&mut log, 100).unwrap();
    // pm.vbat needs two value bytes; this packet carries one.
    stream.deliver_packet(vec![0, 0, 0, 42]);
    assert!(matches!(stream.next(&log), Err(Error::Protocol)));
}

#[test]
fn decode_splits_timestamp_and_values() {
    let vars = vec![toc_var("pm.vbat", 2), toc_var("sys.canfly", 1)];
    // Timestamp 0x030201 little-endian, then 2 + 1 value bytes.
    let packet = vec![0x01, 0x02, 0x03, 0x10, 0x20, 0x30];
    let sample = decode_sample(&packet, &vars).unwrap();
    assert_eq!(sample.timestamp, 0x030201);
    assert_eq!(sample.values, vec![vec![0x10, 0x20], vec![0x30]]);
}

#[test]
fn full_flight_scenario_reads_increasing_timestamps() {
    let mut log = Log::new(flight_toc());
    let mut block = log.create_block().unwrap();
    block.add_variable(&mut log, "stateEstimate.roll").unwrap();
    block.add_variable(&mut log, "pm.vbat").unwrap();
    let created_id = block.block_id();

    let mut timestamps: Vec<u32> = Vec::new();

    // First streaming phase at 100 ms.
    let mut stream = block.start(&mut log, 100).unwrap();
    for t in [100u32, 200, 300] {
        let ts = t.to_le_bytes();
        let mut packet = vec![ts[0], ts[1], ts[2]];
        packet.extend_from_slice(&[0, 0, 0, 0]); // stateEstimate.roll
        packet.extend_from_slice(&[0xe8, 0x0f]); // pm.vbat
        stream.deliver_packet(packet);
    }
    for _ in 0..3 {
        let sample = stream.next(&log).unwrap().unwrap();
        assert_eq!(sample.values.len(), 2);
        assert_eq!(sample.values[1], vec![0xe8, 0x0f]);
        timestamps.push(sample.timestamp);
    }

    // Reconfigure-free restart at 50 ms.
    let block = stream.stop(&mut log).unwrap();
    assert_eq!(block.block_id(), created_id);
    let mut stream = block.start(&mut log, 50).unwrap();
    for t in [350u32, 400, 450] {
        let ts = t.to_le_bytes();
        let mut packet = vec![ts[0], ts[1], ts[2]];
        packet.extend_from_slice(&[0, 0, 0, 0]);
        packet.extend_from_slice(&[0xe8, 0x0f]);
        stream.deliver_packet(packet);
    }
    for _ in 0..3 {
        timestamps.push(stream.next(&log).unwrap().unwrap().timestamp);
    }

    assert_eq!(timestamps.len(), 6);
    for pair in timestamps.windows(2) {
        assert!(pair[0] < pair[1]);
    }

    stream.release(&mut log);
    assert_eq!(log.delete_count(created_id), 1);
}

#[test]
fn remote_calls_fail_once_the_link_is_down() {
    let mut log = Log::new(flight_toc());
    let mut block = log.create_block().unwrap();
    log.mark_disconnected();
    assert!(matches!(
        block.add_variable(&mut log, "pm.vbat"),
        Err(Error::ConnectionLost)
    ));
    assert!(matches!(
        block.start(&mut log, 100),
        Err(Error::ConnectionLost)
    ));
    assert!(matches!(log.create_block(), Err(Error::ConnectionLost)));
}
