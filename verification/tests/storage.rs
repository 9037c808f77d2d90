use flate2::read::GzDecoder;
use flate2::write::GzEncoder;
use flate2::Compression;
use rbspy::storage::version::magic_read_failure;
use rbspy::storage::{
    read_line_bounded, read_version, LineReader, Record, StorageError, Store, TraceError,
    TraceStream, Version, MAX_LINE_BYTES,
};
use rbspy::system::IoErrorKind;
use std::io::{Read, Write};

fn gzip(bytes: &[u8]) -> Vec<u8> {
    let mut encoder = GzEncoder::new(Vec::new(), Compression::default());
    encoder.write_all(bytes).unwrap();
    encoder.finish().unwrap()
}

fn json(text: &str) -> serde_json::Value {
    serde_json::from_str(text).unwrap()
}

fn texts(data: &[u8]) -> Vec<String> {
    let mut stream = TraceStream::new(data).unwrap();
    let mut texts: Vec<String> = Vec::new();
    while let Some(record) = stream.next() {
        match record.unwrap() {
            Record::Frames(text) => texts.push(text),
            Record::Trace(text) => texts.push(text),
        }
    }
    texts
}

#[test]
fn test_reads_v2_data() {
    let data = gzip(
        b"rbspy02\n\
          {\"sample_rate\":100,\"rbspy_version\":\"0.0.0\",\"start_time\":null}\n\
          {\"trace\":[{\"name\":\"f\",\"relative_path\":\"f.rb\",\"absolute_path\":null,\"lineno\":1}],\"pid\":123,\"thread_id\":null,\"time\":null,\"on_cpu\":null}\n",
    );
    let mut stream = TraceStream::new(&data).unwrap();
    let header = json(stream.header_line().unwrap());
    assert_eq!(header.get("sample_rate").unwrap().as_u64(), Some(100));
    let record = stream.next().unwrap().unwrap();
    let text = match record {
        Record::Trace(text) => text,
        Record::Frames(_) => panic!("not a bare list of frames"),
    };
    let trace = json(&text);
    assert_eq!(trace.get("pid").unwrap().as_u64(), Some(123));
    let frame = trace.get("trace").unwrap().get(0).unwrap();
    assert_eq!(frame.get("name").unwrap().as_str(), Some("f"));
    assert!(stream.next().is_none());
}

#[test]
fn test_empty_file_is_an_error_not_a_panic() {
    assert!(TraceStream::new(&[]).is_err());
}

#[test]
fn test_truncated_magic_number_is_an_error_not_a_panic() {
    let data = gzip(b"rbs");
    assert!(TraceStream::new(&data).is_err());
}

#[test]
fn test_missing_header_is_an_error_not_a_panic() {
    let data = gzip(b"rbspy02\n");
    assert!(TraceStream::new(&data).is_err());
}

#[test]
fn test_garbage_input_is_an_error_not_a_panic() {
    assert!(TraceStream::new(b"not even gzip").is_err());
    let data = gzip(b"rbspy99\nsurprise");
    assert!(TraceStream::new(&data).is_err());
}

#[test]
fn test_overlong_line_is_an_error_not_a_panic() {
    let mut contents = b"rbspy02\n".to_vec();
    contents.extend(vec![b'a'; MAX_LINE_BYTES + 1]);
    contents.push(b'\n');
    let data = gzip(&contents);
    assert!(TraceStream::new(&data).is_err());
}

#[test]
fn test_malformed_trace_line_is_an_error_not_a_panic() {
    let data = gzip(
        b"rbspy02\n\
          {\"sample_rate\":100,\"rbspy_version\":\"0.0.0\",\"start_time\":null}\n\
          {\"truncated\":\n",
    );
    let mut stream = TraceStream::new(&data).unwrap();
    let text = match stream.next().unwrap().unwrap() {
        Record::Trace(text) => text,
        Record::Frames(_) => panic!("not a bare list of frames"),
    };
    assert!(serde_json::from_str::<serde_json::Value>(&text).is_err());
}

#[test]
fn versions_have_their_tags() {
    assert_eq!(Version::try_from(b"00\n").unwrap(), Version(0));
    assert_eq!(Version::try_from(b"01\n").unwrap(), Version(1));
    assert_eq!(Version::try_from(b"02\nrest").unwrap(), Version(2));
    for tag in [&b"03\n"[..], b"99\n", b"2\n\n", b"02 ", b"12\n", b"02", b"0", b"", b"/2\n", b"0:\n"] {
        assert!(matches!(Version::try_from(tag), Err(StorageError::Invalid)));
    }
    assert_eq!(Version(2).to_string(), "2");
    assert_eq!(Version(u64::MAX).to_string(), "18446744073709551615");
}

#[test]
fn version_is_read_off_the_start() {
    let data = gzip(b"rbspy01\nrest");
    let mut decoder = GzDecoder::new(&data[..]);
    assert_eq!(read_version(&mut decoder).unwrap(), Version(1));
    let mut rest = String::new();
    decoder.read_to_string(&mut rest).unwrap();
    assert_eq!(rest, "rest");
}

#[test]
fn unknown_start_is_invalid() {
    for plain in [&b"rbspy9x\nsurprise"[..], b"rbspy02", b"ruby_02\n", b"", b"rbspy02\r", b"rbspy 2\n"] {
        let data = gzip(plain);
        assert!(matches!(
            TraceStream::new(&data),
            Err(TraceError::Storage(StorageError::Invalid))
        ));
    }
}

#[test]
fn version_that_cannot_be_handled_is_reported() {
    for (plain, number) in [
        (&b"rbspy99\nsurprise"[..], 99),
        (b"rbspy03\n", 3),
        (b"rbspy10\n{}\n", 10),
    ] {
        let data = gzip(plain);
        match TraceStream::new(&data) {
            Err(TraceError::Storage(StorageError::UnknownVersion(version))) => {
                assert_eq!(version, Version(number))
            }
            _ => panic!("not an unknown version"),
        }
    }
}

#[test]
fn eight_bytes_are_taken_for_the_version() {
    for start in ["rbspy02\n", "rbspy99\n", "not magic"] {
        let data = gzip(format!("{}rest", &start[..8]).as_bytes());
        let mut decoder = GzDecoder::new(&data[..]);
        assert_eq!(read_version(&mut decoder).is_ok(), start == "rbspy02\n");
        let mut rest = String::new();
        decoder.read_to_string(&mut rest).unwrap();
        assert_eq!(rest, "rest");
    }
    let data = gzip(b"rbspy");
    let mut decoder = GzDecoder::new(&data[..]);
    assert!(matches!(
        read_version(&mut decoder),
        Err(StorageError::Invalid)
    ));
    let mut rest = String::new();
    decoder.read_to_string(&mut rest).unwrap();
    assert_eq!(rest, "");
}

#[test]
fn truncated_input_is_invalid() {
    let data = gzip(b"rbspy02\n{}\n");
    assert!(matches!(
        TraceStream::new(&data[..5]),
        Err(TraceError::Storage(StorageError::Invalid))
    ));
}

#[test]
fn input_that_is_no_gzip_is_an_io_error() {
    assert!(matches!(
        TraceStream::new(b"not even gzip"),
        Err(TraceError::Storage(StorageError::Io(error)))
            if error.kind() == std::io::ErrorKind::InvalidInput
    ));
}

#[test]
fn cut_off_file_ends_in_an_io_error() {
    let mut plain = b"rbspy01\n".to_vec();
    let mut seed: u32 = 1;
    for _ in 0..20000 {
        seed = seed.wrapping_mul(1664525).wrapping_add(1013904223);
        plain.extend_from_slice(format!("{}\n", seed).as_bytes());
    }
    let data = gzip(&plain);
    let mut stream = TraceStream::new(&data[..data.len() / 2]).unwrap();
    let mut count: usize = 0;
    loop {
        match stream.next() {
            Some(Ok(_)) => count += 1,
            Some(Err(TraceError::Storage(StorageError::Io(error)))) => {
                assert_eq!(error.kind(), std::io::ErrorKind::UnexpectedEof);
                break;
            }
            _ => panic!("a cut off file was read to its end"),
        }
    }
    assert!(count > 0);
}

#[test]
fn damage_behind_the_lines_is_an_io_error() {
    let mut data = gzip(b"rbspy01\n[1]\n");
    let last = data.len() - 1;
    data[last] ^= 1;
    let mut stream = TraceStream::new(&data).unwrap();
    assert_eq!(
        stream.next().unwrap().unwrap(),
        Record::Trace("[1]".to_string())
    );
    assert!(matches!(
        stream.next(),
        Some(Err(TraceError::Storage(StorageError::Io(error))))
            if error.kind() == std::io::ErrorKind::InvalidInput
    ));
}

#[test]
fn decompressed_lines_come_before_a_failure() {
    let mut data = gzip(b"rbspy01\none\n\n\r\ntwo\nunclosed");
    let last = data.len() - 1;
    data[last] ^= 1;
    let mut stream = TraceStream::new(&data).unwrap();
    for text in ["one", "two"] {
        assert_eq!(
            stream.next().unwrap().unwrap(),
            Record::Trace(text.to_string())
        );
    }
    assert!(matches!(
        stream.next(),
        Some(Err(TraceError::Storage(StorageError::Io(_))))
    ));
}

#[test]
fn short_magic_number_is_told_from_other_failures() {
    let eof = std::io::Error::from(std::io::ErrorKind::UnexpectedEof);
    assert!(matches!(
        magic_read_failure(IoErrorKind::UnexpectedEof, eof),
        StorageError::Invalid
    ));
    let other = std::io::Error::from(std::io::ErrorKind::InvalidInput);
    assert!(matches!(
        magic_read_failure(IoErrorKind::Other, other),
        StorageError::Io(error) if error.kind() == std::io::ErrorKind::InvalidInput
    ));
}

#[test]
fn missing_header_is_reported() {
    let data = gzip(b"rbspy02\n");
    assert!(matches!(
        TraceStream::new(&data),
        Err(TraceError::MissingHeader)
    ));
}

#[test]
fn header_that_is_not_utf8_is_reported() {
    let data = gzip(b"rbspy02\n\xff\n");
    assert!(matches!(TraceStream::new(&data), Err(TraceError::NotUtf8)));
}

#[test]
fn old_versions_open_without_a_header() {
    let data = gzip(b"rbspy00\n[0]\n");
    let mut stream = TraceStream::new(&data).unwrap();
    assert_eq!(stream.header_line(), None);
    assert_eq!(
        stream.next().unwrap().unwrap(),
        Record::Frames("[0]".to_string())
    );
    let data = gzip(b"rbspy01\n[1]\n");
    let mut stream = TraceStream::new(&data).unwrap();
    assert_eq!(stream.header_line(), None);
    assert_eq!(
        stream.next().unwrap().unwrap(),
        Record::Trace("[1]".to_string())
    );
}

#[test]
fn lines_are_read_one_by_one() {
    let data = gzip("\nplain\ncr\r\nlone\rcr\n\u{e9}\u{20ac}\nlast".as_bytes());
    let mut reader = LineReader::new(GzDecoder::new(&data[..]));
    let mut lines: Vec<String> = Vec::new();
    while let Some(line) = read_line_bounded(&mut reader).unwrap() {
        lines.push(line);
    }
    assert_eq!(
        lines,
        ["", "plain", "cr", "lone\rcr", "\u{e9}\u{20ac}", "last"]
    );
    assert!(read_line_bounded(&mut reader).unwrap().is_none());
}

#[test]
fn lines_joined_are_the_input() {
    for input in ["", "\n", "a", "a\n", "\n\n", "a\n\nb", "\u{e9}\n\u{20ac}\n", "\na\n\n"] {
        let data = gzip(input.as_bytes());
        let mut reader = LineReader::new(GzDecoder::new(&data[..]));
        let mut lines: Vec<String> = Vec::new();
        while let Some(line) = read_line_bounded(&mut reader).unwrap() {
            lines.push(line);
        }
        assert!(read_line_bounded(&mut reader).unwrap().is_none());
        assert_eq!(lines.join("\n"), input.strip_suffix('\n').unwrap_or(input));
        let newlines = input.matches('\n').count();
        let unclosed = !input.is_empty() && !input.ends_with('\n');
        assert_eq!(lines.len(), newlines + usize::from(unclosed));
    }
}

#[test]
fn carriage_return_without_a_newline_stays() {
    let data = gzip(b"last\r");
    let mut reader = LineReader::new(GzDecoder::new(&data[..]));
    assert_eq!(
        read_line_bounded(&mut reader).unwrap(),
        Some("last\r".to_string())
    );
}

#[test]
fn line_of_the_maximum_length_is_read() {
    let mut contents = vec![b'a'; MAX_LINE_BYTES - 1];
    contents.push(b'\n');
    contents.extend_from_slice(b"next\n");
    let data = gzip(&contents);
    let mut reader = LineReader::new(GzDecoder::new(&data[..]));
    assert_eq!(
        read_line_bounded(&mut reader).unwrap().unwrap().len(),
        MAX_LINE_BYTES - 1
    );
    assert_eq!(
        read_line_bounded(&mut reader).unwrap(),
        Some("next".to_string())
    );
}

#[test]
fn line_over_the_maximum_length_is_refused() {
    let mut contents = vec![b'a'; MAX_LINE_BYTES];
    contents.push(b'\n');
    contents.extend_from_slice(b"next\n");
    let data = gzip(&contents);
    let mut reader = LineReader::new(GzDecoder::new(&data[..]));
    assert!(matches!(
        read_line_bounded(&mut reader),
        Err(TraceError::LineTooLong)
    ));
    assert_eq!(
        read_line_bounded(&mut reader).unwrap(),
        Some("next".to_string())
    );
}

#[test]
fn bad_line_is_reported_and_reading_goes_on() {
    let data = gzip(b"rbspy01\none\n\xc3\x28\ntwo\n");
    let mut stream = TraceStream::new(&data).unwrap();
    assert_eq!(
        stream.next().unwrap().unwrap(),
        Record::Trace("one".to_string())
    );
    assert!(matches!(stream.next(), Some(Err(TraceError::NotUtf8))));
    assert_eq!(
        stream.next().unwrap().unwrap(),
        Record::Trace("two".to_string())
    );
    assert!(stream.next().is_none());
    assert!(stream.next().is_none());
}

#[test]
fn empty_lines_are_passed_over() {
    let data = gzip(b"rbspy01\n\n\none\n\r\n\ntwo\n\n");
    assert_eq!(texts(&data), ["one", "two"]);
}

#[test]
fn completed_file_is_what_was_written() {
    let mut store = Store::new("{\"sample_rate\":99}").unwrap();
    let mut file: Vec<u8> = store.take_output();
    let traces = ["{\"pid\":1}", "{\"pid\":2}", "{\"name\":\"\u{e9}\"}"];
    for trace in traces {
        store.write(trace).unwrap();
        file.extend(store.take_output());
    }
    file.extend(store.complete().unwrap());

    let mut plain = String::new();
    GzDecoder::new(&file[..]).read_to_string(&mut plain).unwrap();
    assert_eq!(
        plain,
        "rbspy02\n{\"sample_rate\":99}\n{\"pid\":1}\n{\"pid\":2}\n{\"name\":\"\u{e9}\"}\n"
    );
    let stream = TraceStream::new(&file).unwrap();
    assert_eq!(stream.header_line(), Some("{\"sample_rate\":99}"));
    assert_eq!(texts(&file), traces);
}

#[test]
fn all_that_is_ready_is_taken_at_once() {
    let mut store = Store::new("{}").unwrap();
    let first = store.take_output();
    assert_eq!(first[..2], [0x1f, 0x8b]);
    assert!(store.take_output().is_empty());
    store.write("{\"pid\":1}").unwrap();
    let mut file = first;
    file.extend(store.complete().unwrap());
    assert_eq!(texts(&file), ["{\"pid\":1}"]);
}

#[test]
fn file_that_is_not_completed_is_damaged() {
    let mut store = Store::new("{}").unwrap();
    store.write("{\"pid\":1}").unwrap();
    let file = store.take_output();
    match TraceStream::new(&file) {
        Err(_) => {}
        Ok(mut stream) => {
            while let Some(record) = stream.next() {
                if record.is_err() {
                    return;
                }
            }
            panic!("a truncated file was read to its end");
        }
    }
}

#[test]
fn large_file_reads_back() {
    let mut store = Store::new("{}").unwrap();
    let mut written: Vec<String> = Vec::new();
    for i in 0..3000 {
        let trace = format!("{{\"pid\":{},\"name\":\"{}\"}}", i, i * 7919 % 1013);
        store.write(&trace).unwrap();
        written.push(trace);
    }
    let mut file = store.take_output();
    file.extend(store.complete().unwrap());
    assert_eq!(texts(&file), written);
}

#[test]
fn errors_have_messages() {
    assert_eq!(StorageError::Invalid.to_string(), "Invalid rbspy file");
    assert_eq!(
        StorageError::UnknownVersion(Version(99)).to_string(),
        "Cannot handle rbspy format 99"
    );
    let error = std::io::Error::from(std::io::ErrorKind::UnexpectedEof);
    let expected = format!("IO error {:?}", error);
    assert_eq!(StorageError::Io(error).to_string(), expected);
    assert_eq!(
        TraceError::Storage(StorageError::Invalid).to_string(),
        "Invalid rbspy file"
    );
    assert_eq!(
        TraceError::LineTooLong.to_string(),
        "line in rbspy data file exceeds the maximum length of 67108864 bytes"
    );
    assert_eq!(
        TraceError::NotUtf8.to_string(),
        "rbspy data file contains a line that isn't valid UTF-8"
    );
    assert_eq!(
        TraceError::MissingHeader.to_string(),
        "rbspy data file is missing its header"
    );
}
