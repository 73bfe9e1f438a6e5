//! Writer that converts a stream of WASM bytes into a JS module.
//!
//! The bytes go through a window buffer of `WINDOW_BYTES` bytes. Each time the
//! window is full its base64 text becomes one more string of a list in the
//! module's source; what is left at the end becomes the last string. The
//! module reverses the list once and pops from its end, so it reads the chunks
//! in the order in which they were written.

use crate::chunks::{chunk, chunk_count, chunk_texts, CHUNK_TEXT_BYTES, WINDOW_BYTES};
use crate::codec::{base64_text, encode_slice, lemma_base64_len};
use crate::utils::{append_bytes, os_text, LineEnding, StrUtils};
use vstd::prelude::*;
use vstd::slice::slice_subrange;
use vstd::string::*;

verus! {

/// What follows the import line: it opens the list of chunks and its first
/// string.
pub const PROLOG: &'static str = "\nconst CHUNK_STACK = [\n\"";

/// What stands between two chunks: it closes one string and opens the next.
pub const CHUNK_SEP: &'static str = "\",\n\"";

/// What follows the last chunk: it closes the list, reverses it, and defines
/// the loader.
pub const EPILOG: &'static str = r#""
].reverse();

async function chunkBytes(base64) {
  if (typeof Buffer !== 'undefined') {
    return Buffer.from(base64, 'base64');
  }
  const res = await fetch("data:application/octet-stream;base64," + base64);
  return res.bytes();
}

export const WASM_PROMISE = (async () => {
  const compressed = new ReadableStream({
    type: 'bytes',
    cancel: () => {
      CHUNK_STACK.length = 0;
    },
    pull: async (ctrl) => {
      if (CHUNK_STACK.length) {
        ctrl.enqueue(await chunkBytes(CHUNK_STACK.pop()));
      } else {
        ctrl.close();
      }
    }
  });
  const body = compressed.pipeThrough(new DecompressionStream('deflate'));
  const response = new Response(body,
  {
    status: 200,
      statusText: 'OK',
        headers: {
      'content-type': 'application/wasm'
    }
  });
  const {instance} = await WebAssembly.instantiateStreaming(response, {
    [IMPORTS_KEY]: importObject
  });
  importObject.__wbg_set_wasm(instance.exports);
  instance.exports.__wbindgen_start();
  return importObject;
})();

export function getWasm() {
  return WASM_PROMISE;
}
"#;

/// The statements that import the module `module` and name its import key.
pub open spec fn opening_text(module: Seq<char>) -> Seq<char> {
    "import * as importObject from '"@ + module + "';\nconst IMPORTS_KEY = '"@ + module + "'\n;"@
}

/// The bytes that stand before the first chunk.
pub open spec fn header(module: Seq<char>, line_ending: LineEnding) -> Seq<u8> {
    os_text(opening_text(module), line_ending) + os_text(PROLOG@, line_ending)
}

/// The bytes that stand between two chunks.
pub open spec fn separator(line_ending: LineEnding) -> Seq<u8> {
    os_text(CHUNK_SEP@, line_ending)
}

/// The bytes that stand after the last chunk.
pub open spec fn footer(line_ending: LineEnding) -> Seq<u8> {
    os_text(EPILOG@, line_ending)
}

/// The texts in `texts`, one after the other, with `separator` between each
/// two of them.
pub open spec fn joined(texts: Seq<Seq<u8>>, separator: Seq<u8>) -> Seq<u8>
    decreases texts.len(),
{
    if texts.len() == 0 {
        Seq::empty()
    } else if texts.len() == 1 {
        texts[0]
    } else {
        joined(texts.drop_last(), separator) + separator + texts.last()
    }
}

/// The whole module for the stream `input`: the header, the text of every
/// chunk of `input` with a separator between each two, and the footer.
pub open spec fn document(module: Seq<char>, line_ending: LineEnding, input: Seq<u8>) -> Seq<u8> {
    header(module, line_ending) + joined(chunk_texts(input), separator(line_ending)) + footer(
        line_ending,
    )
}

/// What has been written of the module while `input` is all that has arrived
/// and the stream has not ended: nothing until the first window is full, then
/// the header and the text of every full window.
pub open spec fn partial_document(
    module: Seq<char>,
    line_ending: LineEnding,
    input: Seq<u8>,
) -> Seq<u8> {
    let full = input.len() / (WINDOW_BYTES as nat);
    if full == 0 {
        Seq::empty()
    } else {
        header(module, line_ending) + joined(
            chunk_texts(input).take(full as int),
            separator(line_ending),
        )
    }
}

/// What stands before a chunk: the header before the first one, a separator
/// before every other.
pub open spec fn lead_in(module: Seq<char>, line_ending: LineEnding, first: bool) -> Seq<u8> {
    if first {
        header(module, line_ending)
    } else {
        separator(line_ending)
    }
}

/// The state of a writer.
pub struct Transcript {
    /// The module that the written source imports.
    pub module: Seq<char>,
    /// How lines end in the written source.
    pub line_ending: LineEnding,
    /// All the bytes accepted so far, in the order in which they came.
    pub input: Seq<u8>,
    /// Whether the document has been finished.
    pub finished: bool,
    /// How many bytes of the written source the caller has taken.
    pub taken: nat,
}

impl Transcript {
    /// Whether the header has been written.
    pub open spec fn started(self) -> bool {
        self.finished || self.input.len() >= WINDOW_BYTES
    }

    /// The bytes in the window buffer: what has arrived since the last full
    /// window. There are fewer of them than `WINDOW_BYTES`.
    pub open spec fn buffered(self) -> Seq<u8> {
        if self.finished {
            Seq::empty()
        } else {
            self.input.skip(self.input.len() / (WINDOW_BYTES as nat) * WINDOW_BYTES)
        }
    }

    /// All of the source that has been written so far.
    pub open spec fn text(self) -> Seq<u8> {
        if self.finished {
            document(self.module, self.line_ending, self.input)
        } else {
            partial_document(self.module, self.line_ending, self.input)
        }
    }

    /// The part of the written source that the caller has not taken yet.
    pub open spec fn pending(self) -> Seq<u8> {
        self.text().skip(self.taken as int)
    }

    /// The state after `bytes` have been accepted.
    pub open spec fn after_write(self, bytes: Seq<u8>) -> Transcript {
        Transcript { input: self.input + bytes, ..self }
    }

    /// The state after the document has been finished.
    pub open spec fn after_flush(self) -> Transcript {
        Transcript { finished: true, ..self }
    }

    /// The state after the caller has taken what was pending.
    pub open spec fn after_take(self) -> Transcript {
        Transcript { taken: self.text().len(), ..self }
    }
}

/// How the bytes are split into writes does not matter: accepting `first` and
/// then `second` leads to the same state, and so to the same written source
/// and the same chunks, as accepting `first + second` at once.
pub proof fn lemma_split_writes(state: Transcript, first: Seq<u8>, second: Seq<u8>)
    ensures
        state.after_write(first).after_write(second) == state.after_write(first + second),
        state.after_write(first).after_write(second).text() == state.after_write(
            first + second,
        ).text(),
        chunk_texts(state.after_write(first).after_write(second).input) == chunk_texts(
            state.after_write(first + second).input,
        ),
{
    assert((state.input + first) + second =~= state.input + (first + second));
}

/// Finishing twice is finishing once: the second time changes neither the
/// state nor the written source.
pub proof fn lemma_flush_idempotent(state: Transcript)
    ensures
        state.after_flush().after_flush() == state.after_flush(),
        state.after_flush().after_flush().text() == state.after_flush().text(),
{
}

/// The finished document of a stream holds the texts of its chunks in the
/// order in which they were encoded, and from these texts the loader gets the
/// stream back.
pub proof fn lemma_document_round_trip(state: Transcript)
    ensures
        state.after_flush().text() == header(state.module, state.line_ending) + joined(
            chunk_texts(state.input),
            separator(state.line_ending),
        ) + footer(state.line_ending),
        crate::chunks::reconstruct(chunk_texts(state.input)) == Some(state.input),
{
    crate::chunks::lemma_reconstruct(state.input);
}

/// Adding a text to a list that is not empty adds a separator and the text.
proof fn lemma_joined_push(texts: Seq<Seq<u8>>, text: Seq<u8>, separator: Seq<u8>)
    ensures
        joined(texts.push(text), separator) == if texts.len() == 0 {
            text
        } else {
            joined(texts, separator) + separator + text
        },
{
    assert(texts.push(text).drop_last() =~= texts);
}

/// Bytes that do not fill the window leave the written source as it is.
proof fn lemma_same_window(
    module: Seq<char>,
    line_ending: LineEnding,
    input: Seq<u8>,
    more: Seq<u8>,
)
    requires
        (input + more).len() / (WINDOW_BYTES as nat) == input.len() / (WINDOW_BYTES as nat),
    ensures
        partial_document(module, line_ending, input + more) == partial_document(
            module,
            line_ending,
            input,
        ),
{
    lemma_full_windows_stay(input, more);
}

/// What one more chunk adds to the written source. `before` is the stream
/// when the chunk before this one was written, `after` the stream when this
/// one is: the source then ends with the lead-in and the text of the bytes
/// that came since the last full window.
proof fn lemma_next_chunk(
    module: Seq<char>,
    line_ending: LineEnding,
    before: Seq<u8>,
    after: Seq<u8>,
)
    requires
        before.is_prefix_of(after),
        after.len() <= (before.len() / (WINDOW_BYTES as nat) + 1) * WINDOW_BYTES,
    ensures
        ({
            let full = (before.len() / (WINDOW_BYTES as nat)) as int;
            header(module, line_ending) + joined(
                chunk_texts(after).take(full + 1),
                separator(line_ending),
            ) == partial_document(module, line_ending, before) + lead_in(
                module,
                line_ending,
                full == 0,
            ) + base64_text(after.skip(full * WINDOW_BYTES))
        }),
{
    assert(WINDOW_BYTES == 24576);
    let full = (before.len() / 24576) as int;
    let texts = chunk_texts(after);
    let sep = separator(line_ending);
    let head = header(module, line_ending);
    assert(full * 24576 <= before.len() <= after.len());
    assert(chunk(after, full) =~= after.skip(full * 24576));
    let last = base64_text(after.skip(full * 24576));
    assert(texts.take(full + 1) =~= texts.take(full).push(last));
    lemma_joined_push(texts.take(full), last, sep);
    if full == 0 {
        assert(partial_document(module, line_ending, before) + head + last =~= head + last);
    } else {
        assert(texts.take(full) =~= chunk_texts(before).take(full)) by {
            assert forall|i: int| 0 <= i < full implies chunk(after, i) == chunk(before, i) by {
                assert((i + 1) * 24576 <= before.len());
                assert(chunk(after, i) =~= chunk(before, i));
            }
        }
        assert(head + (joined(texts.take(full), sep) + sep + last) =~= head + joined(
            texts.take(full),
            sep,
        ) + sep + last);
    }
}

/// A longer list of texts begins as a shorter one does.
proof fn lemma_joined_prefix(texts: Seq<Seq<u8>>, separator: Seq<u8>, k: int, n: int)
    requires
        1 <= k <= n <= texts.len(),
    ensures
        joined(texts.take(k), separator).is_prefix_of(joined(texts.take(n), separator)),
    decreases n - k,
{
    if k < n {
        lemma_joined_prefix(texts, separator, k, n - 1);
        assert(texts.take(n) =~= texts.take(n - 1).push(texts[n - 1]));
        lemma_joined_push(texts.take(n - 1), texts[n - 1], separator);
    }
}

/// The texts of the full windows of a stream stay as they are when more
/// bytes follow.
proof fn lemma_full_windows_stay(input: Seq<u8>, more: Seq<u8>)
    ensures
        chunk_texts(input + more).take((input.len() / (WINDOW_BYTES as nat)) as int)
            == chunk_texts(input).take((input.len() / (WINDOW_BYTES as nat)) as int),
{
    assert(WINDOW_BYTES == 24576);
    let full = (input.len() / 24576) as int;
    let longer = input + more;
    assert forall|i: int| 0 <= i < full implies chunk(longer, i) == chunk(input, i) by {
        assert((i + 1) * 24576 <= input.len());
        assert(chunk(longer, i) =~= chunk(input, i));
    }
    assert(chunk_texts(longer).take(full) =~= chunk_texts(input).take(full));
}

/// What is written after more bytes have been accepted begins with what was
/// written before.
proof fn lemma_text_grows_on_write(state: Transcript, bytes: Seq<u8>)
    requires
        !state.finished,
    ensures
        state.text().is_prefix_of(state.after_write(bytes).text()),
{
    assert(WINDOW_BYTES == 24576);
    let full = (state.input.len() / 24576) as int;
    if full > 0 {
        let longer = state.input + bytes;
        let more = (longer.len() / 24576) as int;
        let texts = chunk_texts(longer);
        let sep = separator(state.line_ending);
        lemma_full_windows_stay(state.input, bytes);
        lemma_joined_prefix(texts, sep, full, more);
        let head = header(state.module, state.line_ending);
        let short = joined(texts.take(full), sep);
        let long = joined(texts.take(more), sep);
        assert(state.text() == head + short);
        assert(state.after_write(bytes).text() == head + long);
        assert((head + short).is_prefix_of(head + long));
    }
}

/// What is written when the document is finished begins with what was
/// written before.
proof fn lemma_text_grows_on_flush(state: Transcript)
    requires
        !state.finished,
    ensures
        state.text().is_prefix_of(state.after_flush().text()),
{
    assert(WINDOW_BYTES == 24576);
    let full = (state.input.len() / 24576) as int;
    assert(state.input.is_prefix_of(state.input));
    lemma_next_chunk(state.module, state.line_ending, state.input, state.input);
    assert(chunk_texts(state.input).take(full + 1) =~= chunk_texts(state.input));
}

/// Nothing that was written is changed later: what is written after more
/// bytes have been accepted, or after the document has been finished, begins
/// with what was written before. So the pieces that the caller takes, one
/// after the other, are the document.
pub proof fn lemma_text_grows(state: Transcript, bytes: Seq<u8>)
    requires
        !state.finished,
    ensures
        state.text().is_prefix_of(state.after_write(bytes).text()),
        state.text().is_prefix_of(state.after_flush().text()),
{
    lemma_text_grows_on_write(state, bytes);
    lemma_text_grows_on_flush(state);
}

/// The window buffer never holds a full window: what has arrived is a number
/// of full windows, followed by the fewer than `WINDOW_BYTES` bytes that are
/// buffered.
pub proof fn lemma_buffer_bounded(state: Transcript)
    requires
        !state.finished,
    ensures
        state.buffered().len() < WINDOW_BYTES,
        state.buffered().len() == state.input.len() % (WINDOW_BYTES as nat),
        state.input == state.input.take(state.input.len() - state.buffered().len())
            + state.buffered(),
{
    assert(WINDOW_BYTES == 24576);
    let full = state.input.len() / 24576 * 24576;
    assert(state.input =~= state.input.take(full as int) + state.input.skip(full as int));
}

/// What went wrong in a writer.
#[derive(Clone, Copy, Debug, PartialEq, Eq, Structural)]
pub enum WriterError {
    /// The destination cannot take the bytes: the document is finished.
    Io,
    /// The base64 encoder refused a chunk.
    Encoding,
}

impl WriterError {
    /// The text of the error.
    pub open spec fn message_text(self) -> Seq<char> {
        match self {
            WriterError::Io => "Cannot write to finished WasmJsWriter"@,
            WriterError::Encoding => "Output slice too small"@,
        }
    }

    /// The text of the error.
    pub fn message(&self) -> (text: String)
        ensures
            text@ == self.message_text(),
    {
        match self {
            WriterError::Io => String::from_str("Cannot write to finished WasmJsWriter"),
            WriterError::Encoding => String::from_str("Output slice too small"),
        }
    }
}

/// Converts a stream of bytes into the source of a JS module. The source is
/// kept in the writer until the caller takes it with `take_output`.
pub struct WasmJsWriter {
    out: Vec<u8>,
    imports_module: String,
    line_ending: LineEnding,
    wasm_buf: Vec<u8>,
    out_buf: Vec<u8>,
    started: bool,
    finished: bool,
    input: Ghost<Seq<u8>>,
    taken: Ghost<nat>,
}

impl View for WasmJsWriter {
    type V = Transcript;

    closed spec fn view(&self) -> Transcript {
        Transcript {
            module: self.imports_module@,
            line_ending: self.line_ending,
            input: self.input@,
            finished: self.finished,
            taken: self.taken@,
        }
    }
}

impl WasmJsWriter {
    /// Whether the writer is in order: the window buffer holds what has come
    /// since the last full window, and the source that is kept is what has
    /// been written and not been taken.
    pub closed spec fn wf(&self) -> bool {
        &&& self.out_buf@.len() == CHUNK_TEXT_BYTES
        &&& self.wasm_buf@ == self@.buffered()
        &&& self.started == self@.started()
        &&& self@.taken <= self@.text().len()
        &&& self.out@ == self@.pending()
    }

    /// A writer for a module that imports `imports_module`, with lines that
    /// end as `line_ending` says. Nothing has been accepted or written yet.
    pub fn new(imports_module: &str, line_ending: LineEnding) -> (writer: Self)
        ensures
            writer.wf(),
            writer@ == (Transcript {
                module: imports_module@,
                line_ending,
                input: Seq::empty(),
                finished: false,
                taken: 0,
            }),
    {
        let writer = Self {
            out: Vec::new(),
            imports_module: String::from_str(imports_module),
            line_ending,
            wasm_buf: Vec::new(),
            out_buf: vec![0u8; CHUNK_TEXT_BYTES],
            started: false,
            finished: false,
            input: Ghost(Seq::empty()),
            taken: Ghost(0),
        };
        assert(writer.wasm_buf@ =~= writer@.buffered());
        assert(writer.out@ =~= writer@.pending());
        writer
    }

    /// Writes the window buffer as one more chunk and empties it: the header
    /// and the text if it is the first chunk, a separator and the text if not.
    fn push_chunk(&mut self) -> (result: Result<(), WriterError>)
        requires
            old(self).out_buf@.len() == CHUNK_TEXT_BYTES,
            old(self).wasm_buf@.len() <= WINDOW_BYTES,
        ensures
            old(self).finished ==> result == Err::<(), WriterError>(WriterError::Io) && *final(self) == *old(self),
            !old(self).finished ==> {
                &&& result is Ok
                &&& final(self).out@ == old(self).out@ + lead_in(
                    old(self).imports_module@,
                    old(self).line_ending,
                    !old(self).started,
                ) + base64_text(old(self).wasm_buf@)
                &&& final(self).wasm_buf@ == Seq::<u8>::empty()
                &&& final(self).started
                &&& !final(self).finished
                &&& final(self).out_buf@.len() == CHUNK_TEXT_BYTES
                &&& final(self).imports_module == old(self).imports_module
                &&& final(self).line_ending == old(self).line_ending
                &&& final(self).input == old(self).input
                &&& final(self).taken == old(self).taken
            },
    {
        if self.finished {
            return Err(WriterError::Io);
        }
        proof {
            lemma_base64_len(self.wasm_buf@);
        }
        let sz = match encode_slice(self.wasm_buf.as_slice(), &mut self.out_buf) {
            Ok(sz) => sz,
            Err(_) => {
                return Err(WriterError::Encoding);
            },
        };
        if !self.started {
            let mut opening = String::from_str("import * as importObject from '");
            opening.append(self.imports_module.as_str());
            opening.append("';\nconst IMPORTS_KEY = '");
            opening.append(self.imports_module.as_str());
            opening.append("'\n;");
            let opening_bytes = opening.as_str().to_os_bytes(self.line_ending);
            append_bytes(&mut self.out, opening_bytes.as_slice());
            let prolog = PROLOG.to_os_bytes(self.line_ending);
            append_bytes(&mut self.out, prolog.as_slice());
            self.started = true;
        } else {
            let sep = CHUNK_SEP.to_os_bytes(self.line_ending);
            append_bytes(&mut self.out, sep.as_slice());
        }
        append_bytes(&mut self.out, slice_subrange(self.out_buf.as_slice(), 0, sz));
        self.wasm_buf.clear();
        assert(self.out@ =~= old(self).out@ + lead_in(
            old(self).imports_module@,
            old(self).line_ending,
            !old(self).started,
        ) + base64_text(old(self).wasm_buf@));
        Ok(())
    }

    /// Accepts all of `buf`. Every time the window buffer is full, its text is
    /// written as one more chunk; what does not fill it stays in the buffer.
    /// Fails, and changes nothing, if the document is finished.
    pub fn write(&mut self, buf: &[u8]) -> (result: Result<usize, WriterError>)
        requires
            old(self).wf(),
        ensures
            final(self).wf(),
            old(self)@.finished ==> result == Err::<usize, WriterError>(WriterError::Io) && final(self)@ == old(self)@,
            !old(self)@.finished ==> result == Ok::<usize, WriterError>(buf@.len() as usize)
                && final(self)@ == old(self)@.after_write(buf@),
    {
        if self.finished {
            return Err(WriterError::Io);
        }
        let ghost start = self@;
        let mut written: usize = 0;
        assert(start.input + buf@.take(0) =~= start.input);
        while buf.len() - written >= WINDOW_BYTES - self.wasm_buf.len()
            invariant
                written <= buf.len(),
                self.wf(),
                !self.finished,
                self@ == start.after_write(buf@.take(written as int)),
            decreases buf.len() - written,
        {
            let ghost before = self@;
            let space = WINDOW_BYTES - self.wasm_buf.len();
            let piece = slice_subrange(buf, written, written + space);
            append_bytes(&mut self.wasm_buf, piece);
            self.input = Ghost(self.input@ + piece@);
            written += space;
            proof {
                assert(WINDOW_BYTES == 24576);
                assert(buf@.take(written as int) =~= buf@.take(written - space) + piece@);
                assert(self.input@ =~= start.input + buf@.take(written as int));
                assert(self.wasm_buf@ =~= self.input@.skip((before.input.len() / 24576 * 24576) as int));
                lemma_next_chunk(before.module, before.line_ending, before.input, self.input@);
            }
            match self.push_chunk() {
                Ok(()) => {},
                Err(e) => {
                    return Err(e);
                },
            }
            proof {
                assert(self.wasm_buf@ =~= self@.buffered());
                assert(self@.text() == before.text() + (self@.text().skip(
                    before.text().len() as int,
                )));
                assert(self.out@ =~= self@.pending());
            }
        }
        let ghost before = self@;
        let piece = slice_subrange(buf, written, buf.len());
        append_bytes(&mut self.wasm_buf, piece);
        self.input = Ghost(self.input@ + piece@);
        proof {
            assert(WINDOW_BYTES == 24576);
            assert(buf@.take(written as int) + piece@ =~= buf@);
            assert(self.input@ =~= start.input + buf@);
            lemma_same_window(before.module, before.line_ending, before.input, piece@);
            assert(self.wasm_buf@ =~= self@.buffered());
        }
        Ok(buf.len())
    }

    /// Finishes the document: writes what is left in the window buffer as the
    /// last chunk, even if nothing is left, and then the footer. Does nothing
    /// if the document is finished already.
    pub fn flush(&mut self) -> (result: Result<(), WriterError>)
        requires
            old(self).wf(),
        ensures
            final(self).wf(),
            result is Ok,
            final(self)@ == old(self)@.after_flush(),
            old(self)@.finished ==> *final(self) == *old(self),
    {
        if self.finished {
            return Ok(());
        }
        let ghost before = self@;
        proof {
            assert(WINDOW_BYTES == 24576);
            assert(before.input.is_prefix_of(before.input));
            lemma_next_chunk(before.module, before.line_ending, before.input, before.input);
            let count = chunk_count(before.input);
            assert(chunk_texts(before.input).take(count as int) =~= chunk_texts(before.input));
        }
        match self.push_chunk() {
            Ok(()) => {},
            Err(e) => {
                return Err(e);
            },
        }
        self.finished = true;
        let epilog = EPILOG.to_os_bytes(self.line_ending);
        append_bytes(&mut self.out, epilog.as_slice());
        proof {
            assert(self.wasm_buf@ =~= self@.buffered());
            assert(self@.text() =~= before.text() + lead_in(
                before.module,
                before.line_ending,
                !before.started(),
            ) + base64_text(before.buffered()) + footer(before.line_ending));
            assert(self.out@ =~= self@.pending());
        }
        Ok(())
    }

    /// Hands out the part of the source that was written since the last call,
    /// and keeps none of it.
    pub fn take_output(&mut self) -> (bytes: Vec<u8>)
        requires
            old(self).wf(),
        ensures
            final(self).wf(),
            bytes@ == old(self)@.pending(),
            final(self)@ == old(self)@.after_take(),
    {
        let mut bytes: Vec<u8> = Vec::new();
        std::mem::swap(&mut self.out, &mut bytes);
        self.taken = Ghost(self@.text().len());
        assert(self.out@ =~= self@.pending());
        bytes
    }
}

} // verus!
