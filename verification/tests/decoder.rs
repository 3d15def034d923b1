use blackfast::decoder::{decode_lines, decode_stream, react, Read, Reaction, Transcript};
use blackfast::error::{ClientError, Verdict};
use blackfast::lines::split_lines;

fn frame(status: i32) -> Vec<u8> {
    let mut bytes = vec![0u8];
    bytes.extend_from_slice(&status.to_le_bytes());
    bytes.push(b'\n');
    bytes
}

#[test]
fn zero_byte_read_is_a_protocol_error() {
    let reaction = react(Read::Bytes(0), &[]);
    assert_eq!(reaction, Reaction::Finish(Verdict::Failure(ClientError::ProtocolError)));
    match reaction {
        Reaction::Finish(verdict) => assert_eq!(verdict.exit_code(), -1),
        _ => panic!("the close must end the stream"),
    }
}

#[test]
fn zero_byte_read_wins_over_what_the_buffer_holds() {
    assert_eq!(
        react(Read::Bytes(0), &frame(0)),
        Reaction::Finish(Verdict::Failure(ClientError::ProtocolError))
    );
    assert_eq!(
        react(Read::Bytes(0), b"text\n"),
        Reaction::Finish(Verdict::Failure(ClientError::ProtocolError))
    );
}

#[test]
fn termination_frame_finishes_with_its_status() {
    assert_eq!(react(Read::Bytes(6), &frame(0)), Reaction::Finish(Verdict::Status(0)));
    assert_eq!(react(Read::Bytes(6), &frame(3)), Reaction::Finish(Verdict::Status(3)));
    assert_eq!(react(Read::Bytes(6), &frame(-1)), Reaction::Finish(Verdict::Status(-1)));
    assert_eq!(
        react(Read::Bytes(6), &frame(i32::MIN)),
        Reaction::Finish(Verdict::Status(i32::MIN))
    );
    assert_eq!(
        react(Read::Bytes(6), &frame(i32::MAX)),
        Reaction::Finish(Verdict::Status(i32::MAX))
    );
}

#[test]
fn other_lines_are_forwarded() {
    assert_eq!(react(Read::Bytes(6), b"hello\n"), Reaction::Forward);
    assert_eq!(react(Read::Bytes(1), b"\n"), Reaction::Forward);
    assert_eq!(react(Read::Bytes(5), &[0, 1, 2, 3, b'\n']), Reaction::Forward);
    assert_eq!(react(Read::Bytes(7), &[0, 1, 2, 3, 4, 5, b'\n']), Reaction::Forward);
    assert_eq!(react(Read::Bytes(6), &[1, 0, 0, 0, 0, b'\n']), Reaction::Forward);
    assert_eq!(react(Read::Bytes(3), &[0xff, 0xfe, b'\n']), Reaction::Forward);
    assert_eq!(react(Read::Bytes(4), &[b'a', 0, b'b', b'\n']), Reaction::Forward);
}

#[test]
fn failed_read_is_reported() {
    assert_eq!(react(Read::Failed, &[]), Reaction::Report);
    assert_eq!(react(Read::Failed, &frame(0)), Reaction::Report);
}

#[test]
fn two_lines_then_status_zero() {
    let reads = vec![b"reformatted foo.py\n".to_vec(), b"All done!\n".to_vec(), frame(0)];
    let transcript = decode_lines(&reads);
    assert_eq!(
        transcript,
        Transcript {
            forwarded: vec![b"reformatted foo.py\n".to_vec(), b"All done!\n".to_vec()],
            verdict: Verdict::Status(0),
        }
    );
    assert_eq!(transcript.verdict.exit_code(), 0);
}

#[test]
fn two_lines_then_status_zero_from_bytes() {
    let mut stream = b"reformatted foo.py\nAll done!\n".to_vec();
    stream.extend_from_slice(&frame(0));
    let transcript = decode_stream(&stream);
    assert_eq!(
        transcript.forwarded,
        vec![b"reformatted foo.py\n".to_vec(), b"All done!\n".to_vec()]
    );
    assert_eq!(transcript.verdict, Verdict::Status(0));
    assert_eq!(transcript.verdict.exit_code(), 0);
}

#[test]
fn status_is_passed_through() {
    for status in [1, 2, 123, 255, 256, -1, -2, i32::MAX, i32::MIN] {
        let transcript = decode_lines(&vec![b"would reformat foo.py\n".to_vec(), frame(status)]);
        assert_eq!(transcript.verdict, Verdict::Status(status));
        assert_eq!(transcript.verdict.exit_code(), status);
        assert_eq!(transcript.forwarded, vec![b"would reformat foo.py\n".to_vec()]);
    }
}

#[test]
fn close_after_output_exits_with_minus_one() {
    let reads = vec![b"one\n".to_vec(), b"two\n".to_vec()];
    let transcript = decode_lines(&reads);
    assert_eq!(transcript.forwarded, reads);
    assert_eq!(transcript.verdict, Verdict::Failure(ClientError::ProtocolError));
    assert_eq!(transcript.verdict.exit_code(), -1);
}

#[test]
fn close_at_once_exits_with_minus_one() {
    let transcript = decode_lines(&Vec::new());
    assert_eq!(transcript.forwarded, Vec::<Vec<u8>>::new());
    assert_eq!(transcript.verdict.exit_code(), -1);
    let transcript = decode_stream(&[]);
    assert_eq!(transcript.forwarded, Vec::<Vec<u8>>::new());
    assert_eq!(transcript.verdict.exit_code(), -1);
}

#[test]
fn empty_read_ends_the_stream_before_a_later_frame() {
    let reads = vec![b"one\n".to_vec(), Vec::new(), b"two\n".to_vec(), frame(0)];
    let transcript = decode_lines(&reads);
    assert_eq!(transcript.forwarded, vec![b"one\n".to_vec()]);
    assert_eq!(transcript.verdict, Verdict::Failure(ClientError::ProtocolError));
}

#[test]
fn nothing_is_read_after_the_first_frame() {
    let reads = vec![b"one\n".to_vec(), frame(7), b"two\n".to_vec(), frame(9)];
    let transcript = decode_lines(&reads);
    assert_eq!(transcript.forwarded, vec![b"one\n".to_vec()]);
    assert_eq!(transcript.verdict, Verdict::Status(7));
}

#[test]
fn frame_alone() {
    let transcript = decode_stream(&frame(5));
    assert_eq!(transcript.forwarded, Vec::<Vec<u8>>::new());
    assert_eq!(transcript.verdict, Verdict::Status(5));
}

#[test]
fn lines_that_resemble_the_frame_are_output() {
    let reads = vec![
        vec![1, 0, 0, 0, 0, b'\n'],
        vec![0, 0, 0, 0, b'\n'],
        vec![0, 0, 0, 0, 0, 0, b'\n'],
        frame(4),
    ];
    let transcript = decode_lines(&reads);
    assert_eq!(transcript.forwarded, reads[..3].to_vec());
    assert_eq!(transcript.verdict, Verdict::Status(4));
}

#[test]
fn partial_last_line_is_output_and_the_close_is_fatal() {
    let transcript = decode_stream(b"one\ntwo");
    assert_eq!(transcript.forwarded, vec![b"one\n".to_vec(), b"two".to_vec()]);
    assert_eq!(transcript.verdict, Verdict::Failure(ClientError::ProtocolError));
    let transcript = decode_stream(&[b'x', b'\n', 0, 1, 2, 3, 4, 5]);
    assert_eq!(transcript.forwarded, vec![b"x\n".to_vec(), vec![0, 1, 2, 3, 4, 5]]);
    assert_eq!(transcript.verdict.exit_code(), -1);
}

#[test]
fn newline_in_the_payload_breaks_the_frame() {
    // The stream is cut at every newline, so a status with a byte 0x0A
    // among its first three never arrives as one line of six bytes.
    let transcript = decode_stream(&[0, 10, 0, 0, 0, b'\n']);
    assert_eq!(transcript.forwarded, vec![vec![0, 10], vec![0, 0, 0, b'\n']]);
    assert_eq!(transcript.verdict, Verdict::Failure(ClientError::ProtocolError));
}

#[test]
fn split_lines_keeps_every_byte() {
    assert_eq!(split_lines(b""), Vec::<Vec<u8>>::new());
    assert_eq!(split_lines(b"\n"), vec![b"\n".to_vec()]);
    assert_eq!(split_lines(b"\n\n"), vec![b"\n".to_vec(), b"\n".to_vec()]);
    assert_eq!(split_lines(b"abc"), vec![b"abc".to_vec()]);
    assert_eq!(split_lines(b"abc\n"), vec![b"abc\n".to_vec()]);
    assert_eq!(
        split_lines(b"abc\n\ndef\ng"),
        vec![b"abc\n".to_vec(), b"\n".to_vec(), b"def\n".to_vec(), b"g".to_vec()]
    );
    let stream: Vec<u8> = (0..=255u8).chain(0..=255u8).collect();
    let lines = split_lines(&stream);
    assert_eq!(lines.concat(), stream);
    assert_eq!(lines.len(), 3);
    assert!(lines[..2].iter().all(|line| line.last() == Some(&b'\n')));
}
