use nettest::handler::{react, run, written, Connection, Outcome, Reaction};
use nettest::protocol::{data_frame, request_frame, BUFFER_SIZE};

fn flagged_chunk() -> Vec<u8> {
    let mut bytes = vec![0u8; 1 + BUFFER_SIZE];
    bytes[1..5].copy_from_slice(&418u32.to_be_bytes());
    bytes
}

#[test]
fn ping_is_answered_with_one_ping_byte() {
    assert_eq!(react(3, &[], false), Some(Reaction::Reply(3)));
    assert_eq!(react(3, &[], true), Some(Reaction::Reply(3)));
    let report = run(&[3], false);
    assert_eq!(report.reactions, vec![Reaction::Reply(3)]);
    assert_eq!(written(&report.reactions), vec![3]);
}

#[test]
fn only_pings_are_answered() {
    for op in 0..=255u8 {
        let payload = vec![0u8; nettest::protocol::payload_len(op)];
        let reaction = react(op, &payload, false).unwrap();
        assert_eq!(matches!(reaction, Reaction::Reply(_)), op == 3);
    }
}

#[test]
fn three_pings_get_three_bytes() {
    let report = run(&[3, 3, 9, 3], false);
    assert_eq!(written(&report.reactions), vec![3, 3, 3]);
    assert_eq!(report.outcome, Outcome::Truncated);
    assert_eq!(report.consumed, 4);
}

#[test]
fn request_is_queued_with_its_duration() {
    assert_eq!(
        react(1, &[0, 0, 0, 0, 0, 0, 0, 200], false),
        Some(Reaction::Enqueue(200))
    );
    assert_eq!(
        react(1, &[0, 0, 0, 0, 0, 1, 0, 0], true),
        Some(Reaction::Enqueue(65536))
    );
    let report = run(&request_frame(10_000), false);
    assert_eq!(report.reactions, vec![Reaction::Enqueue(10_000)]);
    assert_eq!(report.consumed, 9);
}

#[test]
fn end_marker_is_ignored_by_the_server() {
    assert_eq!(react(2, &[], false), Some(Reaction::Nothing));
    assert_eq!(react(2, &[], true), Some(Reaction::Nothing));
}

#[test]
fn unknown_opcodes_are_ignored() {
    for op in 4..=254u8 {
        assert_eq!(react(op, &[], true), Some(Reaction::Nothing));
    }
    let report = run(&[4, 100, 254, 3, 255], false);
    assert_eq!(
        report.reactions,
        vec![
            Reaction::Nothing,
            Reaction::Nothing,
            Reaction::Nothing,
            Reaction::Reply(3),
            Reaction::Close
        ]
    );
    assert_eq!(report.outcome, Outcome::Closed);
}

#[test]
fn disconnect_closes_without_error() {
    assert_eq!(react(255, &[], false), Some(Reaction::Close));
    let report = run(&[255], false);
    assert_eq!(report.reactions, vec![Reaction::Close]);
    assert_eq!(report.outcome, Outcome::Closed);
    assert_eq!(report.consumed, 1);
    assert!(written(&report.reactions).is_empty());
}

#[test]
fn nothing_is_read_after_a_disconnect() {
    let report = run(&[3, 255, 3, 3, 1, 2], false);
    assert_eq!(report.reactions, vec![Reaction::Reply(3), Reaction::Close]);
    assert_eq!(report.outcome, Outcome::Closed);
    assert_eq!(report.consumed, 2);
}

#[test]
fn payload_of_the_wrong_length_gets_no_reaction() {
    assert_eq!(react(1, &[0; 7], false), None);
    assert_eq!(react(1, &[0; 9], false), None);
    assert_eq!(react(3, &[0], false), None);
    assert_eq!(react(0, &[0; 100], true), None);
    assert_eq!(react(255, &[1, 2], false), None);
}

#[test]
fn empty_input_is_truncated() {
    let report = run(&[], true);
    assert!(report.reactions.is_empty());
    assert_eq!(report.outcome, Outcome::Truncated);
    assert_eq!(report.consumed, 0);
}

#[test]
fn short_payload_is_truncated_not_handled() {
    let report = run(&[1, 0, 0, 0], false);
    assert!(report.reactions.is_empty());
    assert_eq!(report.outcome, Outcome::Truncated);
    assert_eq!(report.consumed, 0);

    let mut input = vec![3u8];
    input.extend_from_slice(&data_frame()[..BUFFER_SIZE]);
    let report = run(&input, true);
    assert_eq!(report.reactions, vec![Reaction::Reply(3)]);
    assert_eq!(report.outcome, Outcome::Truncated);
    assert_eq!(report.consumed, 1);
}

#[test]
fn data_chunk_is_dropped_without_the_flag() {
    let report = run(&flagged_chunk(), false);
    assert_eq!(report.reactions, vec![Reaction::Nothing]);
    assert_eq!(report.consumed, 1 + BUFFER_SIZE);
    let report = run(&data_frame(), false);
    assert_eq!(report.reactions, vec![Reaction::Nothing]);
}

#[test]
fn matching_digest_gives_a_diagnostic_with_the_flag() {
    let report = run(&flagged_chunk(), true);
    assert_eq!(report.reactions, vec![Reaction::Diagnostic(0x12)]);
    assert_eq!(report.outcome, Outcome::Truncated);
    assert_eq!(
        react(0, &flagged_chunk()[1..], true),
        Some(Reaction::Diagnostic(0x12))
    );
}

#[test]
fn other_digest_gives_no_diagnostic_with_the_flag() {
    let report = run(&data_frame(), true);
    assert_eq!(report.reactions, vec![Reaction::Nothing]);
    assert_eq!(react(0, &vec![0u8; BUFFER_SIZE], true), Some(Reaction::Nothing));
}

#[test]
fn every_input_ends_in_bounded_steps() {
    let mut seed: u32 = 12345;
    for _ in 0..200 {
        let mut input = Vec::new();
        let len = (seed % 64) as usize;
        for _ in 0..len {
            seed = seed.wrapping_mul(1664525).wrapping_add(1013904223);
            let byte = (seed >> 24) as u8;
            input.push(if byte == 0 { 7 } else { byte });
        }
        let report = run(&input, true);
        assert!(report.reactions.len() <= report.consumed);
        assert!(report.consumed <= input.len());
        let closed = report.reactions.last() == Some(&Reaction::Close);
        assert_eq!(report.outcome == Outcome::Closed, closed);
        let before_last = report.reactions.len().saturating_sub(1);
        assert!(report.reactions[..before_last]
            .iter()
            .all(|r| *r != Reaction::Close));
    }
}

#[test]
fn mixed_stream_is_handled_frame_by_frame() {
    let mut input = vec![3u8];
    input.extend_from_slice(&request_frame(200));
    input.extend_from_slice(&data_frame());
    input.push(2);
    input.push(42);
    input.extend_from_slice(&request_frame(5));
    input.push(255);
    let report = run(&input, false);
    assert_eq!(
        report.reactions,
        vec![
            Reaction::Reply(3),
            Reaction::Enqueue(200),
            Reaction::Nothing,
            Reaction::Nothing,
            Reaction::Nothing,
            Reaction::Enqueue(5),
            Reaction::Close
        ]
    );
    assert_eq!(report.outcome, Outcome::Closed);
    assert_eq!(report.consumed, input.len());
}

#[test]
fn written_keeps_the_bytes_of_replies_only() {
    let reactions = [
        Reaction::Nothing,
        Reaction::Reply(3),
        Reaction::Enqueue(3),
        Reaction::Diagnostic(0x12),
        Reaction::Reply(3),
        Reaction::Close,
    ];
    assert_eq!(written(&reactions), vec![3, 3]);
    assert!(written(&[]).is_empty());
}

#[test]
fn connection_handles_a_request_that_arrives_in_pieces() {
    let mut connection = Connection::new(false);
    let report = connection.handle(&[1, 0, 0]);
    assert!(report.reactions.is_empty());
    assert_eq!(report.outcome, Outcome::Truncated);
    assert_eq!(connection.pending_len(), 3);
    let report = connection.handle(&[0, 0, 0, 0, 0]);
    assert!(report.reactions.is_empty());
    assert_eq!(connection.pending_len(), 8);
    let report = connection.handle(&[200, 3]);
    assert_eq!(
        report.reactions,
        vec![Reaction::Enqueue(200), Reaction::Reply(3)]
    );
    assert_eq!(report.consumed, 10);
    assert_eq!(connection.pending_len(), 0);
    assert!(!connection.is_closed());
}

#[test]
fn connection_in_pieces_does_what_it_does_at_once() {
    let mut input = vec![3u8, 17];
    input.extend_from_slice(&flagged_chunk());
    input.extend_from_slice(&request_frame(77));
    input.extend_from_slice(&[3, 255, 3]);
    let at_once = run(&input, true);
    for piece in [1usize, 2, 7, 1000, 16384, 16385, 40000] {
        let mut connection = Connection::new(true);
        let mut reactions = Vec::new();
        for part in input.chunks(piece) {
            let report = connection.handle(part);
            reactions.extend_from_slice(&report.reactions);
        }
        assert_eq!(reactions, at_once.reactions);
        assert!(connection.is_closed());
    }
}

#[test]
fn closed_connection_reads_nothing() {
    let mut connection = Connection::new(false);
    let report = connection.handle(&[255, 3]);
    assert_eq!(report.reactions, vec![Reaction::Close]);
    assert_eq!(report.outcome, Outcome::Closed);
    assert!(connection.is_closed());
    assert_eq!(connection.pending_len(), 0);
    let report = connection.handle(&[3, 3]);
    assert!(report.reactions.is_empty());
    assert_eq!(report.outcome, Outcome::Closed);
    assert_eq!(report.consumed, 0);
}
