use nettest::client::{
    download, mean, ping_sample, Download, DownloadEnd, Upload, UploadAction,
};
use nettest::handler::{run, written, Outcome, Reaction};
use nettest::protocol::{bare_frame, data_frame, request_frame, BUFFER_SIZE, OP_DISCONNECT, OP_PING};
use nettest::rate::bits;
use nettest::sender::{RequestQueue, Worker, WorkerAction};

#[test]
fn ping_answered_with_a_ping_is_a_sample() {
    assert_eq!(ping_sample(Some(3), 1_000, 251_000), Some(250_000));
    assert_eq!(ping_sample(Some(3), 0, 0), Some(0));
    assert_eq!(ping_sample(Some(3), 9, 5), Some(0));
}

#[test]
fn ping_answered_with_anything_else_fails() {
    assert_eq!(ping_sample(Some(0), 1_000, 251_000), None);
    assert_eq!(ping_sample(Some(2), 1_000, 251_000), None);
    assert_eq!(ping_sample(Some(255), 1_000, 251_000), None);
    assert_eq!(ping_sample(None, 1_000, 251_000), None);
}

#[test]
fn ping_exchange_with_the_handler_is_one_byte_each_way() {
    let sent = bare_frame(OP_PING).unwrap();
    assert_eq!(sent, vec![3]);
    let report = run(&sent, false);
    let answer = written(&report.reactions);
    assert_eq!(answer, vec![3]);
    assert_eq!(ping_sample(Some(answer[0]), 100, 350), Some(250));
}

#[test]
fn mean_is_the_sum_over_the_count() {
    assert_eq!(mean(&[]), None);
    assert_eq!(mean(&[7]), Some(7));
    assert_eq!(mean(&[100, 200, 300]), Some(200));
    assert_eq!(mean(&[1, 2]), Some(1));
    assert_eq!(mean(&[u64::MAX, u64::MAX, u64::MAX]), Some(u64::MAX));
    assert_eq!(mean(&[u64::MAX, 0]), Some(u64::MAX / 2));
}

#[test]
fn download_counts_chunks_up_to_the_end_marker() {
    let mut input = Vec::new();
    for _ in 0..3 {
        input.extend_from_slice(&data_frame());
    }
    input.push(2);
    let report = download(&input);
    assert_eq!(report.chunks, 3);
    assert_eq!(report.bytes, 3 * 16384);
    assert_eq!(report.outcome, DownloadEnd::Finished);
    assert_eq!(report.consumed, input.len());
}

#[test]
fn download_without_an_end_marker_is_truncated() {
    let report = download(&[]);
    assert_eq!(report.chunks, 0);
    assert_eq!(report.outcome, DownloadEnd::Truncated);
    assert_eq!(report.consumed, 0);

    let mut input = data_frame();
    input.extend_from_slice(&data_frame()[..1000]);
    let report = download(&input);
    assert_eq!(report.chunks, 1);
    assert_eq!(report.bytes, 16384);
    assert_eq!(report.outcome, DownloadEnd::Truncated);
    assert_eq!(report.consumed, 1 + BUFFER_SIZE);
}

#[test]
fn download_reads_nothing_after_the_end_marker() {
    let mut input = vec![2u8];
    input.extend_from_slice(&data_frame());
    let report = download(&input);
    assert_eq!(report.chunks, 0);
    assert_eq!(report.bytes, 0);
    assert_eq!(report.outcome, DownloadEnd::Finished);
    assert_eq!(report.consumed, 1);
}

#[test]
fn download_passes_over_other_frames() {
    let mut input = vec![3u8, 77];
    input.extend_from_slice(&request_frame(5));
    input.extend_from_slice(&data_frame());
    input.push(255);
    input.push(2);
    input.push(2);
    let report = download(&input);
    assert_eq!(report.chunks, 1);
    assert_eq!(report.outcome, DownloadEnd::Finished);
    assert_eq!(report.consumed, input.len() - 1);
}

#[test]
fn download_count_follows_the_frames() {
    let mut state = Download::new();
    assert_eq!(state, Download { chunks: 0, finished: false });
    state.count(0);
    state.count(0);
    state.count(3);
    state.count(200);
    assert_eq!(state, Download { chunks: 2, finished: false });
    assert_eq!(state.bytes(), 32768);
    state.count(2);
    assert_eq!(state, Download { chunks: 2, finished: true });
    state.count(0);
    state.count(2);
    assert_eq!(state, Download { chunks: 2, finished: true });
}

#[test]
fn download_count_stops_at_the_largest_number() {
    let mut state = Download { chunks: u64::MAX - 1, finished: false };
    state.count(0);
    assert_eq!(state.chunks, u64::MAX);
    state.count(0);
    assert_eq!(state.chunks, u64::MAX);
    assert_eq!(state.bytes(), (u64::MAX as u128) * 16384);
}

#[test]
fn upload_writes_chunks_until_the_duration_has_elapsed() {
    let mut upload = Upload::begin_at(2, 1_000_000);
    assert_eq!(
        upload,
        Upload { start_ns: 1_000_000, duration_ms: 2, chunks: 0 }
    );
    assert_eq!(upload.chunk_sent_at(1_500_000), UploadAction::Chunk);
    assert_eq!(upload.chunk_sent_at(2_999_999), UploadAction::Chunk);
    assert_eq!(upload.chunk_sent_at(3_000_000), UploadAction::End);
    assert_eq!(upload.chunks, 3);
    assert_eq!(upload.bytes(), 3 * 16384);
    assert_eq!(bits(upload.bytes() as u64), 393216);
}

#[test]
fn upload_of_no_duration_ends_after_its_first_chunk() {
    let mut upload = Upload::begin(0);
    assert_eq!(upload.duration_ms, 0);
    assert_eq!(upload.chunks, 0);
    assert_eq!(upload.chunk_sent(), UploadAction::End);
    assert_eq!(upload.chunks, 1);
}

#[test]
fn upload_of_an_hour_goes_on_by_the_clock() {
    let mut upload = Upload::begin(3_600_000);
    assert_eq!(upload.chunk_sent(), UploadAction::Chunk);
    assert_eq!(upload.chunk_sent(), UploadAction::Chunk);
    assert_eq!(upload.chunks, 2);
}

#[test]
fn upload_count_stops_at_the_largest_number() {
    let mut upload = Upload { start_ns: 0, duration_ms: 10, chunks: u64::MAX };
    assert_eq!(upload.chunk_sent_at(1), UploadAction::Chunk);
    assert_eq!(upload.chunks, u64::MAX);
}

fn serve(input: &[u8], tick_ns: u64) -> Vec<u8> {
    let report = run(input, false);
    let mut queue = RequestQueue::new();
    for reaction in &report.reactions {
        if let Reaction::Enqueue(ms) = reaction {
            assert!(queue.send(*ms));
        }
    }
    queue.hang_up();
    let mut worker = Worker::new();
    let mut stream = Vec::new();
    let mut now = 0u64;
    loop {
        match worker.step(&mut queue, now) {
            WorkerAction::Start(_) | WorkerAction::Chunk => stream.extend_from_slice(&data_frame()),
            WorkerAction::End(_) => stream.push(2),
            WorkerAction::Wait | WorkerAction::Exit => break,
        }
        now += tick_ns;
    }
    stream
}

#[test]
fn download_of_200_ms_gets_chunks_and_one_end_marker() {
    let mut input = request_frame(200);
    input.push(OP_DISCONNECT);
    assert_eq!(run(&input, false).outcome, Outcome::Closed);
    let stream = serve(&input, 25_000_000);
    let report = download(&stream);
    assert_eq!(report.outcome, DownloadEnd::Finished);
    assert_eq!(report.chunks, 8);
    assert_eq!(report.consumed, stream.len());
    assert_eq!(stream.iter().filter(|b| **b == 2).count(), 1);
    assert_eq!(*stream.last().unwrap(), 2);
    let seconds = 0.2f64;
    let rate = bits(report.bytes) as f64 / seconds;
    assert!(rate.is_finite());
    assert!(rate > 0.0);
    assert_eq!(rate, 8.0 * 16384.0 * 8.0 / 0.2);
}

#[test]
fn two_downloads_in_a_row_are_served_one_after_the_other() {
    let mut input = request_frame(50);
    input.extend_from_slice(&request_frame(20));
    input.push(OP_DISCONNECT);
    let stream = serve(&input, 10_000_000);
    let first = download(&stream);
    assert_eq!(first.outcome, DownloadEnd::Finished);
    assert_eq!(first.chunks, 5);
    let second = download(&stream[first.consumed..]);
    assert_eq!(second.outcome, DownloadEnd::Finished);
    assert_eq!(second.chunks, 2);
    assert_eq!(first.consumed + second.consumed, stream.len());
}
