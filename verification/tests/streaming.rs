use kos_kit_server::http::Status;
use kos_kit_server::stream::{ReadForWrite, ReadForWriteWriter, StepOutcome, Streamed};

/// A producer that counts down: each step writes one line, the last one ends the stream.
fn countdown(remaining: u32, mut writer: ReadForWriteWriter) -> StepOutcome<u32> {
    writer.write_all(format!("line {}\n", remaining).as_bytes());
    if remaining > 1 {
        (Ok(Some(remaining - 1)), writer)
    } else {
        (Ok(None), writer)
    }
}

fn start_countdown(
    from: u32,
) -> Streamed<u32, fn(u32, ReadForWriteWriter) -> StepOutcome<u32>> {
    let step: fn(u32, ReadForWriteWriter) -> StepOutcome<u32> = countdown;
    ReadForWrite::build_response(
        move |mut writer: ReadForWriteWriter| {
            writer.write_all(b"start\n");
            (Ok(from), writer)
        },
        step,
        "text/plain",
    )
    .unwrap()
}

fn drain<O, U: Fn(O, ReadForWriteWriter) -> StepOutcome<O>>(
    stream: &mut ReadForWrite<O, U>,
    chunk: usize,
) -> Vec<u8> {
    let mut out = Vec::new();
    let mut buffer = vec![0u8; chunk];
    let mut pulls = 0;
    while !stream.is_finished() {
        let n = stream.read(&mut buffer);
        out.extend_from_slice(&buffer[..n]);
        pulls += 1;
        assert!(pulls < 10_000);
    }
    assert_eq!(stream.read(&mut buffer), 0);
    assert_eq!(stream.read(&mut buffer), 0);
    out
}

#[test]
fn output_does_not_depend_on_the_chunk_size() {
    let expected = b"start\nline 3\nline 2\nline 1\n".to_vec();
    for chunk in [1usize, 2, 3, 5, 7, 64, 4096] {
        let mut streamed = start_countdown(3);
        assert_eq!(drain(&mut streamed.body, chunk), expected, "chunk size {}", chunk);
    }
}

#[test]
fn pulls_of_changing_sizes_bring_the_same_bytes() {
    let expected = b"start\nline 4\nline 3\nline 2\nline 1\n".to_vec();
    let sizes = [1usize, 9, 2, 100, 3, 1, 1, 50, 4, 7];
    let mut streamed = start_countdown(4);
    let mut out = Vec::new();
    let mut turn = 0;
    loop {
        let mut buffer = vec![0u8; sizes[turn % sizes.len()]];
        let n = streamed.body.read(&mut buffer);
        if n == 0 {
            break;
        }
        out.extend_from_slice(&buffer[..n]);
        turn += 1;
        assert!(turn < 1_000);
    }
    assert_eq!(out, expected);
    let mut by_one = start_countdown(4);
    assert_eq!(drain(&mut by_one.body, 1), expected);
}

#[test]
fn streamed_response_has_status_and_content_type() {
    let streamed = start_countdown(1);
    assert_eq!(streamed.head.status, Status::Success);
    assert_eq!(streamed.head.status.code(), 200);
    assert_eq!(
        streamed.head.headers.get("Content-Type"),
        Some(&b"text/plain".to_vec())
    );
    assert!(streamed.head.body.is_empty());
}

#[test]
fn pull_serves_the_buffer_before_it_asks_for_more() {
    let mut streamed = start_countdown(2);
    let mut buffer = [0u8; 4];
    assert_eq!(streamed.body.read(&mut buffer), 4);
    assert_eq!(&buffer, b"star");
    assert_eq!(streamed.body.read(&mut buffer), 2);
    assert_eq!(&buffer[..2], b"t\n");
    assert!(!streamed.body.is_finished());
    assert_eq!(streamed.body.read(&mut buffer), 4);
    assert_eq!(&buffer, b"line");
}

#[test]
fn pull_without_room_leaves_the_stream_as_it_is() {
    let mut streamed = start_countdown(1);
    let mut none: [u8; 0] = [];
    assert_eq!(streamed.body.read(&mut none), 0);
    assert!(!streamed.body.is_finished());
    assert_eq!(drain(&mut streamed.body, 8), b"start\nline 1\n".to_vec());
}

#[test]
fn steps_that_write_nothing_are_passed_over() {
    let step = |state: u32, mut writer: ReadForWriteWriter| -> StepOutcome<u32> {
        if state < 1000 {
            (Ok(Some(state + 1)), writer)
        } else {
            writer.write_all(b"late");
            (Ok(None), writer)
        }
    };
    let mut streamed = ReadForWrite::build_response(
        |writer: ReadForWriteWriter| (Ok(0u32), writer),
        step,
        "text/plain",
    )
    .unwrap();
    let mut buffer = [0u8; 16];
    assert_eq!(streamed.body.read(&mut buffer), 4);
    assert_eq!(&buffer[..4], b"late");
    assert!(streamed.body.is_finished());
    assert_eq!(streamed.body.read(&mut buffer), 0);
}

#[test]
fn stream_that_ends_without_bytes_gives_an_empty_pull() {
    let step = |state: u32, writer: ReadForWriteWriter| -> StepOutcome<u32> {
        if state < 3 {
            (Ok(Some(state + 1)), writer)
        } else {
            (Ok(None), writer)
        }
    };
    let mut streamed = ReadForWrite::build_response(
        |writer: ReadForWriteWriter| (Ok(0u32), writer),
        step,
        "text/plain",
    )
    .unwrap();
    let mut buffer = [0u8; 16];
    assert!(!streamed.body.is_finished());
    assert_eq!(streamed.body.read(&mut buffer), 0);
    assert!(streamed.body.is_finished());
}

#[test]
fn failure_of_a_step_goes_out_as_a_trailer() {
    let step = |state: u32, mut writer: ReadForWriteWriter| -> StepOutcome<u32> {
        if state == 0 {
            writer.write_all(b"row 1\n");
            (Ok(Some(1)), writer)
        } else {
            writer.write_all(b"row");
            (Err("broken pipe".to_string()), writer)
        }
    };
    let mut streamed = ReadForWrite::build_response(
        |writer: ReadForWriteWriter| (Ok(0u32), writer),
        step,
        "text/csv",
    )
    .unwrap();
    assert_eq!(drain(&mut streamed.body, 3), b"row 1\nrowbroken pipe".to_vec());
    assert!(streamed.body.is_finished());
}

#[test]
fn failure_of_the_builder_is_an_internal_error() {
    let step = |state: u32, writer: ReadForWriteWriter| -> StepOutcome<u32> {
        (Ok(Some(state)), writer)
    };
    let result = ReadForWrite::build_response(
        |writer: ReadForWriteWriter| (Err::<u32, String>("no header".to_string()), writer),
        step,
        "text/csv",
    );
    match result {
        Err(e) => {
            assert_eq!(e.status, Status::InternalServerError);
            assert_eq!(e.message, "no header");
        }
        Ok(_) => panic!("a stream was built"),
    }
}

#[test]
fn writer_keeps_what_is_written() {
    let mut writer = ReadForWriteWriter::new();
    assert_eq!(writer.write(b"abc"), 3);
    writer.flush();
    writer.write_all(b"de");
    assert_eq!(writer.write(b""), 0);
    assert_eq!(writer.into_bytes(), b"abcde".to_vec());
}
