use std::io::Read;
use std::time::Duration;

use base64::Engine;
use wasm_js::js_bin::{WasmJsWriter, WriterError, CHUNK_SEP, EPILOG, PROLOG};
use wasm_js::utils::{
    elapsed, elapsed_parts, find_manifest_step, get_crate_path, read_and_compress, CratePath,
    LineEnding, StrUtils,
};

#[test]
fn line_breaks_become_line_feeds() {
    assert_eq!("a\r\nb\rc\nd".to_os_bytes(LineEnding::Lf), b"a\nb\nc\nd".to_vec());
    assert_eq!("\r\r\n\n".to_os_bytes(LineEnding::Lf), b"\n\n\n".to_vec());
    assert_eq!("".to_os_bytes(LineEnding::Lf), Vec::<u8>::new());
    assert_eq!("plain".to_os_bytes(LineEnding::Lf), b"plain".to_vec());
}

#[test]
fn line_breaks_become_carriage_return_line_feed() {
    assert_eq!(
        "a\r\nb\rc\nd".to_os_bytes(LineEnding::CrLf),
        b"a\r\nb\r\nc\r\nd".to_vec()
    );
    assert_eq!("\n\r".to_os_bytes(LineEnding::CrLf), b"\r\n\r\n".to_vec());
    assert_eq!("x\r".to_os_bytes(LineEnding::CrLf), b"x\r\n".to_vec());
}

#[test]
fn other_characters_keep_their_utf8_bytes() {
    assert_eq!("é\nß".to_os_bytes(LineEnding::Lf), "é\nß".as_bytes().to_vec());
    assert_eq!(
        "é\nß".to_os_bytes(LineEnding::CrLf),
        "é\r\nß".as_bytes().to_vec()
    );
}

#[test]
fn to_os_bytes_agrees_with_three_replacements() {
    for text in ["", "\r", "\n", "\r\n", "\n\r", "\r\r\n", "a\r\n\r\nb", "\r\n\n\r x \r"] {
        let expected = text.replace("\r\n", "\n").replace('\r', "\n");
        assert_eq!(text.to_os_bytes(LineEnding::Lf), expected.as_bytes().to_vec());
        assert_eq!(
            text.to_os_bytes(LineEnding::CrLf),
            expected.replace('\n', "\r\n").as_bytes().to_vec()
        );
    }
}

#[test]
fn elapsed_shows_minutes_from_one_minute_on() {
    assert_eq!(elapsed_parts(60, 0), "1m 00s");
    assert_eq!(elapsed_parts(61, 999_999_999), "1m 01s");
    assert_eq!(elapsed_parts(3599, 0), "59m 59s");
    assert_eq!(elapsed_parts(3600, 0), "60m 00s");
    assert_eq!(elapsed_parts(754, 0), "12m 34s");
    assert_eq!(
        elapsed_parts(u64::MAX, 0),
        format!("{}m {:02}s", u64::MAX / 60, u64::MAX % 60)
    );
}

#[test]
fn elapsed_shows_hundredths_below_one_minute() {
    assert_eq!(elapsed_parts(0, 0), "0.00s");
    assert_eq!(elapsed_parts(0, 9_999_999), "0.00s");
    assert_eq!(elapsed_parts(0, 10_000_000), "0.01s");
    assert_eq!(elapsed_parts(1, 90_000_000), "1.09s");
    assert_eq!(elapsed_parts(59, 999_999_999), "59.99s");
    assert_eq!(elapsed_parts(12, 340_000_000), "12.34s");
}

#[test]
fn elapsed_of_a_duration() {
    assert_eq!(elapsed(Duration::from_millis(1234)), "1.23s");
    assert_eq!(elapsed(Duration::from_secs(125)), "2m 05s");
    assert_eq!(elapsed(Duration::new(59, 999_999_999)), "59.99s");
    assert_eq!(elapsed(Duration::ZERO), "0.00s");
}

#[test]
fn an_explicit_path_is_used() {
    match get_crate_path(Some("some/crate".to_string()), "/cwd".to_string()) {
        CratePath::Found(path) => assert_eq!(path, "some/crate"),
        CratePath::Look(_) => panic!("an explicit path needs no search"),
    }
}

#[test]
fn without_a_path_the_search_starts_in_the_current_directory() {
    match get_crate_path(None, "/a/b".to_string()) {
        CratePath::Look(dir) => assert_eq!(dir, "/a/b"),
        CratePath::Found(_) => panic!("nothing was found yet"),
    }
}

#[test]
fn the_search_goes_up_until_a_manifest_is_found() {
    match find_manifest_step("/a/b".to_string(), false, Some("/a".to_string())) {
        CratePath::Look(dir) => assert_eq!(dir, "/a"),
        CratePath::Found(_) => panic!("there is a parent to try"),
    }
    match find_manifest_step("/a".to_string(), true, Some("/".to_string())) {
        CratePath::Found(dir) => assert_eq!(dir, "/a"),
        CratePath::Look(_) => panic!("the manifest is here"),
    }
    match find_manifest_step("/".to_string(), false, None) {
        CratePath::Found(dir) => assert_eq!(dir, "."),
        CratePath::Look(_) => panic!("there is nothing above the root"),
    }
}

fn stored_chunks(source: &[u8], module: &str) -> Vec<String> {
    let text = String::from_utf8(source.to_vec()).unwrap();
    let head = format!(
        "import * as importObject from '{}';\nconst IMPORTS_KEY = '{}'\n;{}",
        module, module, PROLOG
    );
    assert!(text.starts_with(&head));
    assert!(text.ends_with(EPILOG));
    let body = &text[head.len()..text.len() - EPILOG.len()];
    body.split(CHUNK_SEP).map(|s| s.to_string()).collect()
}

fn load_and_inflate(stored: &[String]) -> Vec<u8> {
    let mut stack: Vec<String> = stored.to_vec();
    stack.reverse();
    let mut compressed = Vec::new();
    while let Some(chunk) = stack.pop() {
        compressed.extend_from_slice(
            &base64::engine::general_purpose::STANDARD
                .decode(chunk.as_bytes())
                .unwrap(),
        );
    }
    let mut plain = Vec::new();
    flate2::read::ZlibDecoder::new(compressed.as_slice())
        .read_to_end(&mut plain)
        .unwrap();
    plain
}

fn noise(len: usize) -> Vec<u8> {
    let mut state: u64 = 0x2545F4914F6CDD1D;
    (0..len)
        .map(|_| {
            state ^= state << 13;
            state ^= state >> 7;
            state ^= state << 17;
            (state >> 32) as u8
        })
        .collect()
}

#[test]
fn compressed_module_round_trips() {
    for input in [Vec::new(), b"\0asm\x01\0\0\0".to_vec(), vec![7u8; 500_000], noise(100_000)] {
        let mut writer = WasmJsWriter::new("./x_bg.js", LineEnding::Lf);
        assert_eq!(read_and_compress(&mut writer, &input), Ok(()));
        assert_eq!(writer.flush(), Ok(()));
        let source = writer.take_output();
        assert_eq!(load_and_inflate(&stored_chunks(&source, "./x_bg.js")), input);
    }
}

#[test]
fn compressed_stream_is_smaller_for_repetitive_input() {
    let input = vec![b'a'; 200_000];
    let mut writer = WasmJsWriter::new("m", LineEnding::Lf);
    assert_eq!(read_and_compress(&mut writer, &input), Ok(()));
    assert_eq!(writer.flush(), Ok(()));
    let stored = stored_chunks(&writer.take_output(), "m");
    assert_eq!(stored.len(), 1);
    assert!(stored[0].len() < 2_000);
    assert!(stored[0].starts_with("eN"));
}

#[test]
fn compressing_into_a_finished_writer_fails() {
    let mut writer = WasmJsWriter::new("m", LineEnding::Lf);
    assert_eq!(writer.flush(), Ok(()));
    let before = writer.take_output();
    assert_eq!(read_and_compress(&mut writer, b"late"), Err(WriterError::Io));
    assert_eq!(writer.take_output(), Vec::<u8>::new());
    assert!(!before.is_empty());
}
