//! How a byte stream is cut into chunks, and why the loader gets the stream
//! back: the chunks are stored in the order in which they were encoded, the
//! stored list is reversed once, and the loader pops from its end.

use crate::codec::{base64_text, base64_decode, lemma_base64_concat, lemma_round_trip};
use vstd::prelude::*;

verus! {

/// The number of three-byte words that a full chunk holds.
pub const CHUNK_WORDS: usize = 8192;

/// The capacity of the window buffer in bytes. It is a multiple of three, so
/// that the text of a full window ends without padding.
pub const WINDOW_BYTES: usize = 24576;

/// The length of the base64 text of a full window.
pub const CHUNK_TEXT_BYTES: usize = 32768;

/// The number of chunks that `input` is cut into: one for every full window,
/// and the terminal chunk.
pub open spec fn chunk_count(input: Seq<u8>) -> nat {
    input.len() / (WINDOW_BYTES as nat) + 1
}

/// The bytes of chunk `i` of `input`: the window that starts at
/// `i * WINDOW_BYTES`, cut off where the input ends.
pub open spec fn chunk(input: Seq<u8>, i: int) -> Seq<u8>
    recommends
        0 <= i < chunk_count(input),
{
    let start = i * WINDOW_BYTES;
    let end = if start + WINDOW_BYTES <= input.len() {
        start + WINDOW_BYTES
    } else {
        input.len() as int
    };
    input.subrange(start, end)
}

/// The chunks of `input` in the order in which they are encoded. The last one
/// is the terminal chunk: what is left after the full windows, possibly
/// nothing.
pub open spec fn chunks(input: Seq<u8>) -> Seq<Seq<u8>> {
    Seq::new(chunk_count(input), |i: int| chunk(input, i))
}

/// The base64 text of each chunk of `input`, in the order in which they are
/// encoded and stored.
pub open spec fn chunk_texts(input: Seq<u8>) -> Seq<Seq<u8>> {
    Seq::new(chunk_count(input), |i: int| base64_text(chunk(input, i)))
}

/// The order in which the elements of `stack` come out when its last element
/// is removed again and again until none is left.
pub open spec fn pop_order<T>(stack: Seq<T>) -> Seq<T>
    decreases stack.len(),
{
    if stack.len() == 0 {
        Seq::empty()
    } else {
        seq![stack.last()] + pop_order(stack.drop_last())
    }
}

/// The bytes of the texts in `texts`, each decoded on its own, one after the
/// other; `None` if one of them is no base64 text.
pub open spec fn decode_each(texts: Seq<Seq<u8>>) -> Option<Seq<u8>>
    decreases texts.len(),
{
    if texts.len() == 0 {
        Some(Seq::empty())
    } else {
        match (decode_each(texts.drop_last()), base64_decode(texts.last())) {
            (Some(front), Some(back)) => Some(front + back),
            _ => None,
        }
    }
}

/// What the loader reconstructs from the stored list `stored`: it reverses
/// the list once, pops until it is empty, decodes each text it popped and
/// joins the bytes.
pub open spec fn reconstruct(stored: Seq<Seq<u8>>) -> Option<Seq<u8>> {
    decode_each(pop_order(stored.reverse()))
}

/// Every chunk but the last holds exactly `WINDOW_BYTES` bytes; the last
/// holds what is left, which is less than `WINDOW_BYTES`.
pub proof fn lemma_chunk_alignment(input: Seq<u8>)
    ensures
        chunks(input).len() == chunk_count(input),
        forall|i: int|
            0 <= i < chunk_count(input) - 1 ==> (#[trigger] chunks(input)[i]).len()
                == WINDOW_BYTES,
        chunks(input).last().len() == input.len() % (WINDOW_BYTES as nat),
        chunks(input).last().len() < WINDOW_BYTES,
{
}

/// The text of every chunk but the last has `CHUNK_TEXT_BYTES` characters and
/// no padding is needed for it: the length of the chunk is a multiple of three.
pub proof fn lemma_chunk_text_alignment(input: Seq<u8>)
    ensures
        forall|i: int|
            0 <= i < chunk_count(input) - 1 ==> (#[trigger] chunks(input)[i]).len() % 3 == 0,
        forall|i: int|
            0 <= i < chunk_count(input) - 1 ==> (#[trigger] chunk_texts(input)[i]).len()
                == CHUNK_TEXT_BYTES,
{
    assert forall|i: int| 0 <= i < chunk_count(input) - 1 implies (#[trigger] chunk_texts(
        input,
    )[i]).len() == CHUNK_TEXT_BYTES by {
        crate::codec::lemma_base64_len(chunk(input, i));
    }
}

/// The number of bytes of `input` that its first `k` chunks hold.
pub open spec fn covered(input: Seq<u8>, k: int) -> int {
    if k * WINDOW_BYTES <= input.len() {
        k * WINDOW_BYTES
    } else {
        input.len() as int
    }
}

/// Chunk `k - 1` continues where the chunks before it end.
proof fn lemma_chunk_extends(input: Seq<u8>, k: int)
    requires
        1 <= k <= chunk_count(input),
    ensures
        covered(input, k - 1) == (k - 1) * WINDOW_BYTES,
        covered(input, k - 1) % 3 == 0,
        input.take(covered(input, k - 1)) + chunk(input, k - 1) == input.take(covered(input, k)),
{
    assert(WINDOW_BYTES == 24576);
    let start = (k - 1) * 24576;
    assert(start <= input.len());
    assert(input.take(start) + chunk(input, k - 1) =~= input.take(covered(input, k)));
}

/// The first `k` chunks, joined, are the first `k` windows of the input.
proof fn lemma_chunks_prefix(input: Seq<u8>, k: int)
    requires
        0 <= k <= chunk_count(input),
    ensures
        chunks(input).take(k).flatten() == input.take(covered(input, k)),
    decreases k,
{
    let parts = chunks(input);
    if k == 0 {
        assert(parts.take(0) =~= Seq::<Seq<u8>>::empty());
        assert(input.take(0) =~= Seq::<u8>::empty());
    } else {
        lemma_chunks_prefix(input, k - 1);
        let front = parts.take(k - 1);
        assert(parts.take(k) =~= front.push(parts[k - 1]));
        front.lemma_flatten_push(parts[k - 1]);
        lemma_chunk_extends(input, k);
    }
}

/// The chunks cover the input: joined in the order in which they are encoded,
/// they are the input.
pub proof fn lemma_chunks_cover(input: Seq<u8>)
    ensures
        chunks(input).flatten() == input,
{
    let parts = chunks(input);
    lemma_chunks_prefix(input, parts.len() as int);
    assert(WINDOW_BYTES == 24576);
    assert(covered(input, parts.len() as int) == input.len());
    assert(parts.take(parts.len() as int) =~= parts);
    assert(input.take(input.len() as int) =~= input);
}

/// The texts of the first `k` chunks, joined, are the text of the first `k`
/// windows of the input.
proof fn lemma_chunk_texts_prefix(input: Seq<u8>, k: int)
    requires
        0 <= k <= chunk_count(input),
    ensures
        chunk_texts(input).take(k).flatten() == base64_text(input.take(covered(input, k))),
    decreases k,
{
    let texts = chunk_texts(input);
    if k == 0 {
        assert(texts.take(0) =~= Seq::<Seq<u8>>::empty());
        assert(input.take(0) =~= Seq::<u8>::empty());
    } else {
        lemma_chunk_texts_prefix(input, k - 1);
        let front = texts.take(k - 1);
        assert(texts.take(k) =~= front.push(texts[k - 1]));
        front.lemma_flatten_push(texts[k - 1]);
        lemma_chunk_extends(input, k);
        lemma_base64_concat(input.take(covered(input, k - 1)), chunk(input, k - 1));
    }
}

/// Encoding chunk by chunk gives the text of the whole stream: the texts of
/// the chunks, joined in the order in which they are encoded, are the base64
/// text of the input. This holds because only the last chunk can end within a
/// group of three bytes.
pub proof fn lemma_chunk_texts_are_stream_text(input: Seq<u8>)
    ensures
        chunk_texts(input).flatten() == base64_text(input),
{
    let texts = chunk_texts(input);
    lemma_chunk_texts_prefix(input, texts.len() as int);
    assert(WINDOW_BYTES == 24576);
    assert(covered(input, texts.len() as int) == input.len());
    assert(texts.take(texts.len() as int) =~= texts);
    assert(input.take(input.len() as int) =~= input);
}

/// Popping from the end of a reversed list gives the list in its first order:
/// `pop_order(emitted.reverse()) == emitted`.
pub proof fn lemma_pop_restores_order<T>(emitted: Seq<T>)
    ensures
        pop_order(emitted.reverse()) == emitted,
    decreases emitted.len(),
{
    let stack = emitted.reverse();
    if emitted.len() == 0 {
        assert(pop_order(stack) =~= emitted);
    } else {
        let rest = emitted.drop_first();
        assert(stack.last() == emitted[0]);
        assert(stack.drop_last() =~= rest.reverse());
        lemma_pop_restores_order(rest);
        assert(seq![emitted[0]] + rest =~= emitted);
    }
}

/// Decoding the texts of `parts` one by one gives the bytes of `parts`, joined.
proof fn lemma_decode_each_encoded(parts: Seq<Seq<u8>>)
    ensures
        decode_each(Seq::new(parts.len(), |i: int| base64_text(parts[i]))) == Some(parts.flatten()),
    decreases parts.len(),
{
    let texts = Seq::new(parts.len(), |i: int| base64_text(parts[i]));
    if parts.len() == 0 {
        assert(parts.flatten() =~= Seq::<u8>::empty());
    } else {
        let front = parts.drop_last();
        lemma_decode_each_encoded(front);
        assert(texts.drop_last() =~= Seq::new(front.len(), |i: int| base64_text(front[i])));
        lemma_round_trip(parts.last());
        front.lemma_flatten_push(parts.last());
        assert(front.push(parts.last()) =~= parts);
    }
}

/// The loader gets the input back: for every byte sequence `input`, reversing
/// the stored texts once, popping them, decoding each on its own and joining
/// the bytes gives `input`.
pub proof fn lemma_reconstruct(input: Seq<u8>)
    ensures
        reconstruct(chunk_texts(input)) == Some(input),
{
    let texts = chunk_texts(input);
    lemma_pop_restores_order(texts);
    let parts = chunks(input);
    lemma_decode_each_encoded(parts);
    assert(texts =~= Seq::new(parts.len(), |i: int| base64_text(parts[i])));
    lemma_chunks_cover(input);
}

} // verus!
