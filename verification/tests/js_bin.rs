use base64::Engine;
use wasm_js::chunks::{CHUNK_TEXT_BYTES, CHUNK_WORDS, WINDOW_BYTES};
use wasm_js::js_bin::{WasmJsWriter, WriterError, CHUNK_SEP, EPILOG, PROLOG};
use wasm_js::utils::LineEnding;

fn opening(module: &str) -> String {
    format!(
        "import * as importObject from '{}';\nconst IMPORTS_KEY = '{}'\n;",
        module, module
    )
}

/// Bytes that look random enough and depend on `seed`.
fn sample(len: usize, seed: u32) -> Vec<u8> {
    let mut state = seed.wrapping_mul(2654435761).wrapping_add(12345);
    let mut out = Vec::with_capacity(len);
    for _ in 0..len {
        state = state.wrapping_mul(1664525).wrapping_add(1013904223);
        out.push((state >> 24) as u8);
    }
    out
}

fn embed(module: &str, line_ending: LineEnding, pieces: &[&[u8]]) -> Vec<u8> {
    let mut writer = WasmJsWriter::new(module, line_ending);
    for piece in pieces {
        assert_eq!(writer.write(piece), Ok(piece.len()));
    }
    assert_eq!(writer.flush(), Ok(()));
    writer.take_output()
}

/// The strings of the chunk list, in the order in which the source holds them.
fn stored_chunks(source: &[u8], module: &str) -> Vec<String> {
    let text = String::from_utf8(source.to_vec()).unwrap();
    let head = format!("{}{}", opening(module), PROLOG);
    assert!(text.starts_with(&head));
    assert!(text.ends_with(EPILOG));
    let body = &text[head.len()..text.len() - EPILOG.len()];
    body.split(CHUNK_SEP).map(|s| s.to_string()).collect()
}

/// What the loader does: reverse once, pop until empty, decode each, join.
fn load(stored: &[String]) -> Vec<u8> {
    let mut stack: Vec<String> = stored.to_vec();
    stack.reverse();
    let mut bytes = Vec::new();
    while let Some(chunk) = stack.pop() {
        let decoded = base64::engine::general_purpose::STANDARD
            .decode(chunk.as_bytes())
            .unwrap();
        bytes.extend_from_slice(&decoded);
    }
    bytes
}

fn round_trip(input: &[u8]) -> Vec<String> {
    let source = embed("./pkg_bg.js", LineEnding::Lf, &[input]);
    let stored = stored_chunks(&source, "./pkg_bg.js");
    assert_eq!(load(&stored), input);
    stored
}

#[test]
fn window_is_a_multiple_of_three() {
    assert_eq!(CHUNK_WORDS, 8192);
    assert_eq!(WINDOW_BYTES, CHUNK_WORDS * 3);
    assert_eq!(CHUNK_TEXT_BYTES, CHUNK_WORDS * 4);
}

#[test]
fn small_input_gives_the_exact_document() {
    let source = embed("./hello_bg.js", LineEnding::Lf, &[b"foobar"]);
    let expected = format!(
        "import * as importObject from './hello_bg.js';\nconst IMPORTS_KEY = './hello_bg.js'\n;\nconst CHUNK_STACK = [\n\"Zm9vYmFy{}",
        EPILOG
    );
    assert_eq!(String::from_utf8(source).unwrap(), expected);
}

#[test]
fn epilog_reverses_the_list_and_defines_the_loader() {
    assert!(EPILOG.starts_with("\"\n].reverse();\n"));
    assert!(EPILOG.contains("CHUNK_STACK.pop()"));
    assert!(EPILOG.contains("new DecompressionStream('deflate')"));
    assert!(EPILOG.ends_with("export function getWasm() {\n  return WASM_PROMISE;\n}\n"));
    assert_eq!(PROLOG, "\nconst CHUNK_STACK = [\n\"");
    assert_eq!(CHUNK_SEP, "\",\n\"");
}

#[test]
fn carriage_returns_follow_the_line_ending() {
    let source = embed("m", LineEnding::CrLf, &[b"f"]);
    let text = String::from_utf8(source).unwrap();
    let expected_start =
        "import * as importObject from 'm';\r\nconst IMPORTS_KEY = 'm'\r\n;\r\nconst CHUNK_STACK = [\r\n\"Zg==\"\r\n].reverse();\r\n\r\nasync function chunkBytes(base64) {\r\n";
    assert!(text.starts_with(expected_start));
    assert_eq!(text, format!("{}{}{}{}", opening("m"), PROLOG, "Zg==", EPILOG).replace('\n', "\r\n"));
}

#[test]
fn rfc_4648_vectors() {
    let vectors: [(&str, &str); 7] = [
        ("", ""),
        ("f", "Zg=="),
        ("fo", "Zm8="),
        ("foo", "Zm9v"),
        ("foob", "Zm9vYg=="),
        ("fooba", "Zm9vYmE="),
        ("foobar", "Zm9vYmFy"),
    ];
    for (plain, text) in vectors {
        let stored = round_trip(plain.as_bytes());
        assert_eq!(stored, vec![text.to_string()]);
    }
}

#[test]
fn empty_input_gives_one_empty_chunk() {
    let mut writer = WasmJsWriter::new("m", LineEnding::Lf);
    assert_eq!(writer.flush(), Ok(()));
    let source = writer.take_output();
    assert_eq!(
        String::from_utf8(source.clone()).unwrap(),
        format!("{}{}{}", opening("m"), PROLOG, EPILOG)
    );
    let stored = stored_chunks(&source, "m");
    assert_eq!(stored, vec![String::new()]);
    assert_eq!(load(&stored), Vec::<u8>::new());
}

#[test]
fn empty_write_is_accepted() {
    let mut writer = WasmJsWriter::new("m", LineEnding::Lf);
    assert_eq!(writer.write(&[]), Ok(0));
    assert_eq!(writer.write(b"a"), Ok(1));
    assert_eq!(writer.write(&[]), Ok(0));
    assert_eq!(writer.flush(), Ok(()));
    assert_eq!(stored_chunks(&writer.take_output(), "m"), vec!["YQ==".to_string()]);
}

#[test]
fn one_byte_round_trips() {
    let stored = round_trip(&[0xff]);
    assert_eq!(stored, vec!["/w==".to_string()]);
}

#[test]
fn one_byte_less_than_a_window_is_one_chunk() {
    let input = sample(WINDOW_BYTES - 1, 1);
    let stored = round_trip(&input);
    assert_eq!(stored.len(), 1);
    assert_eq!(stored[0].len(), CHUNK_TEXT_BYTES);
    assert!(stored[0].ends_with('='));
}

#[test]
fn exactly_one_window_gives_a_full_chunk_and_an_empty_one() {
    let input = sample(WINDOW_BYTES, 2);
    let stored = round_trip(&input);
    assert_eq!(stored.len(), 2);
    assert_eq!(stored[0].len(), CHUNK_TEXT_BYTES);
    assert!(!stored[0].contains('='));
    assert_eq!(stored[1], "");
}

#[test]
fn one_byte_more_than_a_window() {
    let input = sample(WINDOW_BYTES + 1, 3);
    let stored = round_trip(&input);
    assert_eq!(stored.len(), 2);
    assert_eq!(stored[0].len(), CHUNK_TEXT_BYTES);
    assert_eq!(stored[1].len(), 4);
    assert!(stored[1].ends_with("=="));
}

#[test]
fn three_windows_give_three_full_chunks_and_an_empty_one() {
    let input = sample(3 * WINDOW_BYTES, 4);
    let stored = round_trip(&input);
    assert_eq!(stored.len(), 4);
    for chunk in &stored[..3] {
        assert_eq!(chunk.len(), CHUNK_TEXT_BYTES);
        assert!(!chunk.contains('='));
    }
    assert_eq!(stored[3], "");
}

#[test]
fn every_chunk_but_the_last_is_full() {
    for (len, seed) in [(0usize, 5u32), (1, 6), (100_000, 7), (5 * WINDOW_BYTES + 2, 8)] {
        let input = sample(len, seed);
        let stored = round_trip(&input);
        assert_eq!(stored.len(), len / WINDOW_BYTES + 1);
        let (last, full) = stored.split_last().unwrap();
        for (i, chunk) in full.iter().enumerate() {
            let window = &input[i * WINDOW_BYTES..(i + 1) * WINDOW_BYTES];
            assert_eq!(
                chunk,
                &base64::engine::general_purpose::STANDARD.encode(window)
            );
        }
        let rest = &input[full.len() * WINDOW_BYTES..];
        assert!(rest.len() < WINDOW_BYTES);
        assert_eq!(last, &base64::engine::general_purpose::STANDARD.encode(rest));
    }
}

#[test]
fn chunk_texts_joined_are_the_text_of_the_stream() {
    let input = sample(2 * WINDOW_BYTES + 100, 9);
    let stored = round_trip(&input);
    assert_eq!(
        stored.concat(),
        base64::engine::general_purpose::STANDARD.encode(&input)
    );
}

#[test]
fn popping_without_reversing_would_break_the_order() {
    let input = sample(WINDOW_BYTES + 10, 10);
    let stored = round_trip(&input);
    let mut stack = stored.clone();
    let mut popped = Vec::new();
    while let Some(chunk) = stack.pop() {
        popped.push(chunk);
    }
    assert_ne!(popped, stored);
    let mut reversed = stored.clone();
    reversed.reverse();
    let mut restored = Vec::new();
    while let Some(chunk) = reversed.pop() {
        restored.push(chunk);
    }
    assert_eq!(restored, stored);
}

#[test]
fn large_input_round_trips() {
    let input = sample(3 * 1024 * 1024 + 5, 11);
    let stored = round_trip(&input);
    assert_eq!(stored.len(), input.len() / WINDOW_BYTES + 1);
}

#[test]
fn one_large_write_equals_many_small_writes() {
    let input = sample(4 * WINDOW_BYTES + 777, 12);
    let at_once = embed("m", LineEnding::Lf, &[&input]);
    let pieces: Vec<&[u8]> = input.chunks(1000).collect();
    assert_eq!(embed("m", LineEnding::Lf, &pieces), at_once);
    let bytes: Vec<&[u8]> = input[..WINDOW_BYTES + 3].chunks(1).collect();
    assert_eq!(
        embed("m", LineEnding::Lf, &bytes),
        embed("m", LineEnding::Lf, &[&input[..WINDOW_BYTES + 3]])
    );
}

#[test]
fn random_splits_give_the_same_document() {
    let input = sample(6 * WINDOW_BYTES + 4321, 13);
    let at_once = embed("m", LineEnding::Lf, &[&input]);
    let mut state: u32 = 99;
    for _ in 0..8 {
        let mut pieces: Vec<&[u8]> = Vec::new();
        let mut rest: &[u8] = &input;
        while !rest.is_empty() {
            state = state.wrapping_mul(1103515245).wrapping_add(12345);
            let limit = [0usize, 1, 2, 3, 100, WINDOW_BYTES - 1, WINDOW_BYTES, 70_000]
                [(state >> 16) as usize % 8];
            let take = limit.min(rest.len());
            let (piece, tail) = rest.split_at(take);
            pieces.push(piece);
            rest = tail;
        }
        let source = embed("m", LineEnding::Lf, &pieces);
        assert_eq!(source, at_once);
        assert_eq!(load(&stored_chunks(&source, "m")), input);
    }
}

#[test]
fn flush_twice_is_flush_once() {
    let mut once = WasmJsWriter::new("m", LineEnding::Lf);
    assert_eq!(once.write(b"hello"), Ok(5));
    assert_eq!(once.flush(), Ok(()));
    let mut twice = WasmJsWriter::new("m", LineEnding::Lf);
    assert_eq!(twice.write(b"hello"), Ok(5));
    assert_eq!(twice.flush(), Ok(()));
    assert_eq!(twice.flush(), Ok(()));
    assert_eq!(twice.take_output(), once.take_output());
    assert_eq!(twice.flush(), Ok(()));
    assert_eq!(twice.take_output(), Vec::<u8>::new());
}

#[test]
fn write_after_flush_fails() {
    let mut writer = WasmJsWriter::new("m", LineEnding::Lf);
    assert_eq!(writer.write(b"abc"), Ok(3));
    assert_eq!(writer.flush(), Ok(()));
    let source = writer.take_output();
    assert_eq!(writer.write(b"more"), Err(WriterError::Io));
    assert_eq!(writer.write(&[]), Err(WriterError::Io));
    assert_eq!(writer.write(&sample(2 * WINDOW_BYTES, 14)), Err(WriterError::Io));
    assert_eq!(writer.take_output(), Vec::<u8>::new());
    assert_eq!(stored_chunks(&source, "m"), vec!["YWJj".to_string()]);
}

#[test]
fn error_messages() {
    assert_eq!(WriterError::Io.message(), "Cannot write to finished WasmJsWriter");
    assert_eq!(WriterError::Encoding.message(), "Output slice too small");
}

#[test]
fn nothing_is_written_before_the_first_window_is_full() {
    let mut writer = WasmJsWriter::new("m", LineEnding::Lf);
    assert_eq!(writer.write(&sample(WINDOW_BYTES - 1, 15)), Ok(WINDOW_BYTES - 1));
    assert_eq!(writer.take_output(), Vec::<u8>::new());
    assert_eq!(writer.write(&[7]), Ok(1));
    let first = writer.take_output();
    assert_eq!(first.len(), opening("m").len() + PROLOG.len() + CHUNK_TEXT_BYTES);
}

#[test]
fn output_taken_in_pieces_is_the_document() {
    let input = sample(3 * WINDOW_BYTES + 50, 16);
    let at_once = embed("m", LineEnding::Lf, &[&input]);
    let mut writer = WasmJsWriter::new("m", LineEnding::Lf);
    let mut source = Vec::new();
    for piece in input.chunks(10_000) {
        assert_eq!(writer.write(piece), Ok(piece.len()));
        source.extend_from_slice(&writer.take_output());
    }
    assert_eq!(writer.flush(), Ok(()));
    source.extend_from_slice(&writer.take_output());
    assert_eq!(source, at_once);
}

#[test]
fn module_name_is_written_as_it_is() {
    let module = "./größe_bg.js";
    let source = embed(module, LineEnding::Lf, &[b"x"]);
    assert_eq!(stored_chunks(&source, module), vec!["eA==".to_string()]);
}
