//! The lines of the protocol, and how output is cut into them.
use external_mutator::bytes::{position, same_bytes, same_fields};
use external_mutator::exchange::reply_fields;
use external_mutator::hexcode::HexError;
use external_mutator::lines::{chunk_lines, take_lines};
use external_mutator::protocol::{can_send, decode_fields, encode_request, parse_id, split_id};
use external_mutator::reader::{NextRead, OutputReader, ProcessEvent, ReadResult};

fn lines(text: &[&[u8]]) -> Vec<Vec<u8>> {
    text.iter().map(|line| line.to_vec()).collect()
}

#[test]
fn every_byte_survives_a_request() {
    let all: Vec<u8> = (0..=255).collect();
    let request = encode_request(0xabc, &[&all, b"", &[0x0a, 0x0d, 0x20]]);
    assert_eq!(request.iter().filter(|&&b| b == b'\n').count(), 1);
    let line = request.strip_suffix(b"\n").unwrap();
    let (id, payload) = split_id(line);
    assert_eq!(parse_id(id), Some(0xabc));
    assert_eq!(
        decode_fields(payload).unwrap(),
        vec![all, Vec::new(), vec![0x0a, 0x0d, 0x20]]
    );
}

#[test]
fn requests_without_fields_read_back() {
    for id in [0, 1, 15, 16, 0xdead_beef, u64::MAX] {
        let request = encode_request(id, &[]);
        let (field, payload) = split_id(request.strip_suffix(b"\n").unwrap());
        assert_eq!(parse_id(field), Some(id));
        assert_eq!(payload, None);
    }
}

#[test]
fn hex_errors() {
    assert_eq!(decode_fields(Some(b"6")), Err(HexError::OddLength));
    assert_eq!(
        decode_fields(Some(b"616z")),
        Err(HexError::InvalidHexCharacter { c: 'z', index: 3 })
    );
    // The first bad field decides, and an odd length comes before a bad character.
    assert_eq!(
        decode_fields(Some(b"61 zz 6")),
        Err(HexError::InvalidHexCharacter { c: 'z', index: 0 })
    );
    assert_eq!(decode_fields(Some(b"zzz")), Err(HexError::OddLength));
    assert_eq!(
        decode_fields(Some(&[b'6', 0xe9])),
        Err(HexError::InvalidHexCharacter { c: '\u{e9}', index: 1 })
    );
    // Both cases are accepted.
    assert_eq!(decode_fields(Some(b"aBCd")), Ok(vec![vec![0xab, 0xcd]]));
}

#[test]
fn ids_in_other_forms() {
    assert_eq!(parse_id(b"0000000000000000001f"), Some(0x1f));
    assert_eq!(parse_id(b"-1"), None);
    assert_eq!(parse_id(b"1f\r"), None);
    assert_eq!(parse_id(&[0xff]), None);
    assert_eq!(parse_id("\u{0661}".as_bytes()), None);
    assert_eq!(split_id(b""), (&b""[..], None));
    assert_eq!(split_id(b" 61"), (&b""[..], Some(&b"61"[..])));
}

#[test]
fn replies_are_decoded_or_dropped() {
    let sent = lines(&[b"b"]);
    assert_eq!(reply_fields(&sent, &Some(b"62".to_vec())), None);
    assert_eq!(reply_fields(&sent, &Some(b"xx".to_vec())), None);
    assert_eq!(
        reply_fields(&sent, &Some(b"63".to_vec())),
        Some(lines(&[b"c"]))
    );
    assert_eq!(reply_fields(&sent, &None), Some(Vec::new()));
    assert_eq!(reply_fields(&Vec::new(), &None), None);
}

#[test]
fn fields_that_can_be_sent() {
    assert!(can_send(&Vec::new()));
    assert!(can_send(&lines(&[b"", b"abc"])));
}

#[test]
fn searching_and_comparing() {
    assert_eq!(position(b"a b c", b' '), 1);
    assert_eq!(position(b"abc", b' '), 3);
    assert!(same_bytes(b"ab", b"ab"));
    assert!(!same_bytes(b"ab", b"ac"));
    assert!(!same_bytes(b"ab", b"a"));
    assert!(same_fields(&lines(&[b"a", b""]), &lines(&[b"a", b""])));
    assert!(!same_fields(&lines(&[b"a", b""]), &lines(&[b"a"])));
    assert!(!same_fields(&lines(&[b"a"]), &lines(&[b"b"])));
}

#[test]
fn complete_lines_are_taken() {
    let mut buf = b"one\r\ntwo\r\r\n\n a\rb \nrest\r".to_vec();
    assert_eq!(
        take_lines(&mut buf),
        lines(&[b"one", b"two", b"", b" a\rb "])
    );
    assert_eq!(buf, b"rest\r");
    assert_eq!(take_lines(&mut buf), Vec::<Vec<u8>>::new());
    assert_eq!(buf, b"rest\r");
}

#[test]
fn chunks_do_not_change_the_lines() {
    let text = b"one\r\ntwo\n\nthree\r\r\nrest";
    let mut whole = text.to_vec();
    let expected = take_lines(&mut whole);
    for cut in 0..=text.len() {
        let mut buf = text[..cut].to_vec();
        let mut taken = take_lines(&mut buf);
        buf.extend_from_slice(&text[cut..]);
        taken.extend(take_lines(&mut buf));
        assert_eq!(taken, expected);
        assert_eq!(buf, whole);
    }
}

#[test]
fn stderr_lines_of_a_chunk() {
    assert_eq!(
        chunk_lines(b"a\r\n\n\r\nb\r\r\nc"),
        lines(&[b"a", b"b\r", b"c"])
    );
    assert_eq!(chunk_lines(b""), Vec::<Vec<u8>>::new());
    assert_eq!(chunk_lines(b"\n\r\n"), Vec::<Vec<u8>>::new());
}

#[test]
fn reader_prefers_stderr() {
    let mut reader = OutputReader::new();
    assert!(reader.running() && reader.polls_stdout() && reader.polls_stderr());
    assert_eq!(reader.next_read(true, true), NextRead::Stderr);
    assert_eq!(reader.next_read(false, true), NextRead::Stdout);
    assert_eq!(reader.next_read(false, false), NextRead::Nothing);

    assert_eq!(reader.stderr_read(ReadResult::Interrupted), Vec::new());
    assert!(reader.polls_stderr());
    assert_eq!(
        reader.stderr_read(ReadResult::Read(b"bad\nworse".to_vec())),
        vec![
            ProcessEvent::Stderr(b"bad".to_vec()),
            ProcessEvent::Stderr(b"worse".to_vec()),
        ]
    );
    assert_eq!(reader.stderr_read(ReadResult::Failed), Vec::new());
    assert!(!reader.polls_stderr() && reader.running());
    assert_eq!(reader.next_read(true, true), NextRead::Stdout);
}

#[test]
fn reader_reports_anything_on_stderr() {
    let mut reader = OutputReader::new();
    for chunk in [&b"\n"[..], b"\r\n", b"\r", b"\n\r\n\n"] {
        assert_eq!(
            reader.stderr_read(ReadResult::Read(chunk.to_vec())),
            vec![ProcessEvent::Stderr(Vec::new())]
        );
    }
    assert_eq!(
        reader.stderr_read(ReadResult::Read(b"\nx\n\n".to_vec())),
        vec![ProcessEvent::Stderr(b"x".to_vec())]
    );
    assert!(reader.polls_stderr());
}

#[test]
fn reader_holds_the_reply_back_for_stderr() {
    let mut reader = OutputReader::new();
    // Nothing is on stderr, so stdout is chosen. Before it is read, the program writes to both.
    assert_eq!(reader.polled(false), Vec::new());
    assert_eq!(reader.next_read(false, true), NextRead::Stdout);
    assert!(reader.poll_waits());
    reader.stdout_read(ReadResult::Read(b"1 61\n".to_vec()));
    assert!(!reader.poll_waits());
    // The next poll finds the output on stderr, which goes first.
    assert_eq!(reader.polled(true), Vec::new());
    assert_eq!(reader.next_read(true, false), NextRead::Stderr);
    assert_eq!(
        reader.stderr_read(ReadResult::Read(b"oops\n".to_vec())),
        vec![ProcessEvent::Stderr(b"oops".to_vec())]
    );
    assert!(!reader.poll_waits());
    assert_eq!(
        reader.polled(false),
        vec![ProcessEvent::Stdout(b"1 61".to_vec())]
    );
    assert!(reader.poll_waits());
    assert_eq!(reader.polled(false), Vec::new());
}

#[test]
fn reader_releases_everything_when_stderr_is_closed() {
    let mut reader = OutputReader::new();
    reader.stdout_read(ReadResult::Read(b"1\n".to_vec()));
    reader.stdout_read(ReadResult::Read(Vec::new()));
    assert_eq!(reader.stderr_read(ReadResult::Read(Vec::new())), Vec::new());
    // Both pipes are closed, but two events are still held.
    assert!(!reader.polls_stdout() && !reader.polls_stderr() && reader.running());
    assert_eq!(
        reader.polled(true),
        vec![
            ProcessEvent::Stdout(b"1".to_vec()),
            ProcessEvent::StdoutClosed,
        ]
    );
    assert!(!reader.running());
}

#[test]
fn reader_forwards_stdout_by_lines() {
    let mut reader = OutputReader::new();
    reader.stdout_read(ReadResult::Read(b"1 6".to_vec()));
    assert_eq!(reader.polled(false), Vec::new());
    reader.stdout_read(ReadResult::Interrupted);
    assert_eq!(reader.polled(false), Vec::new());
    reader.stdout_read(ReadResult::Read(b"1\n2\nfin".to_vec()));
    assert_eq!(
        reader.polled(false),
        vec![
            ProcessEvent::Stdout(b"1 61".to_vec()),
            ProcessEvent::Stdout(b"2".to_vec()),
        ]
    );
    // A final line without terminator still counts as a line.
    reader.stdout_read(ReadResult::Read(Vec::new()));
    assert_eq!(
        reader.polled(false),
        vec![
            ProcessEvent::Stdout(b"fin".to_vec()),
            ProcessEvent::StdoutClosed,
        ]
    );
    assert!(!reader.polls_stdout());
    assert_eq!(reader.next_read(false, true), NextRead::Nothing);
    assert_eq!(reader.stderr_read(ReadResult::Read(Vec::new())), Vec::new());
    assert!(!reader.running());

    let mut reader = OutputReader::new();
    reader.stdout_read(ReadResult::Failed);
    assert_eq!(reader.polled(false), vec![ProcessEvent::StdoutClosed]);
}

#[test]
fn polls_between_reads_do_not_change_the_events() {
    let text = b"0 61\r\n1\n\nrest";
    let expected = vec![
        ProcessEvent::Stdout(b"0 61".to_vec()),
        ProcessEvent::Stdout(b"1".to_vec()),
        ProcessEvent::Stdout(Vec::new()),
        ProcessEvent::Stdout(b"rest".to_vec()),
        ProcessEvent::StdoutClosed,
    ];
    for size in 1..=text.len() {
        for stderr in [false, true] {
            let mut reader = OutputReader::new();
            let mut events = Vec::new();
            for chunk in text.chunks(size) {
                reader.stdout_read(ReadResult::Read(chunk.to_vec()));
                events.extend(reader.polled(stderr));
                if stderr {
                    reader.stderr_read(ReadResult::Read(b"noise".to_vec()));
                }
            }
            reader.stdout_read(ReadResult::Read(Vec::new()));
            // The end of stderr is found by a poll, and read as any other output.
            assert_eq!(reader.next_read(true, false), NextRead::Stderr);
            assert_eq!(reader.stderr_read(ReadResult::Read(Vec::new())), Vec::new());
            assert!(reader.running());
            events.extend(reader.polled(false));
            assert!(!reader.running());
            assert_eq!(events, expected);
        }
    }
}
