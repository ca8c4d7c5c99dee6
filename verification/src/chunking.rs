use vstd::prelude::*;
use crate::text::{chars_of, string_from_chars, sub_chars};

verus! {

/// How far back (in characters) a sentence end may lie behind the size limit
/// and still be used as the cut point of a chunk.
pub const SENTENCE_SEARCH_RANGE: usize = 200;

/// A character that ends a sentence.
pub open spec fn is_sentence_end(c: char) -> bool {
    c == '.' || c == '!' || c == '?'
}

/// The state of the chunker after reading a prefix of the text:
/// the chunks cut so far, the characters not yet cut, and the length of the
/// longest prefix of the pending characters that ends a sentence (if any was
/// seen since the last cut).
pub struct ChunkState {
    pub chunks: Seq<Seq<char>>,
    pub pending: Seq<char>,
    pub boundary: Option<nat>,
}

/// Reading one more character `c`.
pub open spec fn chunk_step(st: ChunkState, c: char, max: nat) -> ChunkState {
    let pending = st.pending.push(c);
    let n = pending.len();
    let boundary = if is_sentence_end(c) { Some(n) } else { st.boundary };
    let cut: nat = match boundary {
        Some(b) => if n - b <= SENTENCE_SEARCH_RANGE { b } else { max },
        None => max,
    };
    if n >= max {
        ChunkState {
            chunks: st.chunks.push(pending.take(cut as int)),
            pending: pending.skip(cut as int),
            boundary: None,
        }
    } else {
        ChunkState { chunks: st.chunks, pending, boundary }
    }
}

/// The state after reading all of `text`.
pub open spec fn chunk_state(text: Seq<char>, max: nat) -> ChunkState
    decreases text.len(),
{
    if text.len() == 0 {
        ChunkState { chunks: Seq::empty(), pending: Seq::empty(), boundary: None }
    } else {
        chunk_step(chunk_state(text.drop_last(), max), text.last(), max)
    }
}

/// The chunks of `text`: the cut chunks, then what is left over when it is not empty.
pub open spec fn text_chunks(text: Seq<char>, max: nat) -> Seq<Seq<char>> {
    let st = chunk_state(text, max);
    if st.pending.len() > 0 {
        st.chunks.push(st.pending)
    } else {
        st.chunks
    }
}

/// What holds of the chunker's state after reading `text`.
pub open spec fn chunk_state_inv(text: Seq<char>, st: ChunkState, max: nat) -> bool {
    &&& st.chunks.flatten() + st.pending == text
    &&& st.boundary matches Some(b) ==> 1 <= b <= st.pending.len()
    &&& max >= 1 ==> st.pending.len() < max
    &&& max >= 1 ==> forall|j: int|
        0 <= j < st.chunks.len() ==> 1 <= (#[trigger] st.chunks[j]).len() <= max
}

proof fn lemma_chunk_state_inv(text: Seq<char>, max: nat)
    ensures
        chunk_state_inv(text, chunk_state(text, max), max),
    decreases text.len(),
{
    broadcast use Seq::lemma_flatten_push;

    if text.len() == 0 {
        assert(Seq::<Seq<char>>::empty().flatten() =~= Seq::<char>::empty());
        assert(chunk_state(text, max).chunks.flatten() + chunk_state(text, max).pending =~= text);
    } else {
        let t = text.drop_last();
        let c = text.last();
        lemma_chunk_state_inv(t, max);
        let prev = chunk_state(t, max);
        let st = chunk_state(text, max);
        let pending = prev.pending.push(c);
        let n = pending.len();
        let boundary = if is_sentence_end(c) { Some(n) } else { prev.boundary };
        let cut: nat = match boundary {
            Some(b) => if n - b <= SENTENCE_SEARCH_RANGE { b } else { max },
            None => max,
        };
        assert(text =~= t.push(c));
        if n >= max {
            assert(cut <= n);
            assert(pending.take(cut as int) + pending.skip(cut as int) =~= pending);
            assert(st.chunks == prev.chunks.push(pending.take(cut as int)));
            assert(st.chunks.flatten() =~= prev.chunks.flatten() + pending.take(cut as int));
            assert(st.chunks.flatten() + st.pending =~= prev.chunks.flatten() + pending);
            assert(prev.chunks.flatten() + pending =~= (prev.chunks.flatten() + prev.pending).push(c));
            if max >= 1 {
                assert forall|j: int| 0 <= j < st.chunks.len() implies 1 <= (#[trigger] st.chunks[j]).len() <= max by {
                    if j < prev.chunks.len() {
                        assert(st.chunks[j] == prev.chunks[j]);
                    }
                }
            }
        } else {
            assert(st.chunks.flatten() + st.pending =~= (prev.chunks.flatten() + prev.pending).push(c));
        }
    }
}

/// Joining the chunks in order gives back the text: no character is lost,
/// repeated or moved.
pub proof fn lemma_chunks_concatenate_to_text(text: Seq<char>, max: nat)
    ensures
        text_chunks(text, max).flatten() == text,
{
    broadcast use Seq::lemma_flatten_push;

    lemma_chunk_state_inv(text, max);
    let st = chunk_state(text, max);
    if st.pending.len() == 0 {
        assert(st.chunks.flatten() + st.pending =~= st.chunks.flatten());
    }
}

/// With a positive limit, every chunk is non-empty and holds at most `max` characters.
pub proof fn lemma_chunks_within_limit(text: Seq<char>, max: nat)
    requires
        max >= 1,
    ensures
        forall|i: int|
            0 <= i < text_chunks(text, max).len() ==> 1 <= (#[trigger] text_chunks(
                text,
                max,
            )[i]).len() <= max,
{
    lemma_chunk_state_inv(text, max);
    let st = chunk_state(text, max);
    let cs = text_chunks(text, max);
    assert forall|i: int| 0 <= i < cs.len() implies 1 <= (#[trigger] cs[i]).len() <= max by {
        if i < st.chunks.len() {
            assert(cs[i] == st.chunks[i]);
        }
    }
}

/// No character of `s` ends a sentence.
pub open spec fn no_sentence_end(s: Seq<char>) -> bool {
    forall|k: int| 0 <= k < s.len() ==> !is_sentence_end(#[trigger] s[k])
}

/// `chunk` was cut right after a sentence end: it ends one, it is at most `max`
/// and at least `max - 200` characters long, and the `max - chunk.len()` characters
/// of the text that follow it (`after`) end no sentence, so no later sentence end
/// would have fit within the limit.
pub open spec fn cut_at_sentence(chunk: Seq<char>, after: Seq<char>, max: nat) -> bool {
    &&& chunk.len() > 0
    &&& is_sentence_end(chunk.last())
    &&& chunk.len() <= max
    &&& max <= chunk.len() + SENTENCE_SEARCH_RANGE
    &&& max - chunk.len() <= after.len()
    &&& no_sentence_end(after.take(max - chunk.len()))
}

/// How many of the last characters of a full chunk were searched for a sentence end.
pub open spec fn limit_window(max: nat) -> nat {
    if max <= SENTENCE_SEARCH_RANGE {
        max
    } else {
        (SENTENCE_SEARCH_RANGE + 1) as nat
    }
}

/// `chunk` was cut at the limit: it holds exactly `max` characters and none of
/// its last `min(201, max)` characters ends a sentence.
pub open spec fn cut_at_limit(chunk: Seq<char>, max: nat) -> bool {
    &&& chunk.len() == max
    &&& no_sentence_end(chunk.skip(max - limit_window(max)))
}

/// The text that follows chunk `j` of `chunks`, a cutting of `text`.
pub open spec fn text_after_chunk(text: Seq<char>, chunks: Seq<Seq<char>>, j: int) -> Seq<char> {
    text.skip(chunks.take(j + 1).flatten().len() as int)
}

/// Where the chunker cuts, in terms of the pending characters and the chunks cut so far.
pub open spec fn chunk_cut_inv(text: Seq<char>, st: ChunkState, max: nat) -> bool {
    &&& st.boundary is None ==> no_sentence_end(st.pending)
    &&& st.boundary matches Some(b) ==> {
        &&& is_sentence_end(st.pending[b - 1])
        &&& forall|k: int| b <= k < st.pending.len() ==> !is_sentence_end(#[trigger] st.pending[k])
    }
    &&& forall|j: int|
        0 <= j < st.chunks.len() ==> {
            &&& (#[trigger] st.chunks.take(j + 1)).flatten().len() <= text.len()
            &&& (cut_at_sentence(st.chunks[j], text_after_chunk(text, st.chunks, j), max)
                || cut_at_limit(st.chunks[j], max))
        }
}

proof fn lemma_cut_at_sentence_extend(chunk: Seq<char>, after: Seq<char>, c: char, max: nat)
    requires
        cut_at_sentence(chunk, after, max),
    ensures
        cut_at_sentence(chunk, after.push(c), max),
{
    let k = max - chunk.len();
    assert(after.push(c).take(k) =~= after.take(k));
}

proof fn lemma_flatten_take_len(chunks: Seq<Seq<char>>, j: int)
    requires
        0 <= j <= chunks.len(),
    ensures
        chunks.take(j).flatten().len() <= chunks.flatten().len(),
{
    vstd::seq_lib::lemma_flatten_concat(chunks.take(j), chunks.skip(j));
    assert(chunks.take(j) + chunks.skip(j) =~= chunks);
}

proof fn lemma_chunk_cut_inv(text: Seq<char>, max: nat)
    requires
        max >= 1,
    ensures
        chunk_cut_inv(text, chunk_state(text, max), max),
    decreases text.len(),
{
    broadcast use Seq::lemma_flatten_push;

    if text.len() > 0 {
        let t = text.drop_last();
        let c = text.last();
        lemma_chunk_cut_inv(t, max);
        lemma_chunk_state_inv(t, max);
        let prev = chunk_state(t, max);
        let st = chunk_state(text, max);
        let pending = prev.pending.push(c);
        let n = pending.len();
        let boundary = if is_sentence_end(c) { Some(n) } else { prev.boundary };
        let cut: nat = match boundary {
            Some(b) => if n - b <= SENTENCE_SEARCH_RANGE { b } else { max },
            None => max,
        };
        assert(text =~= t.push(c));
        assert(text == prev.chunks.flatten() + pending);
        assert(boundary is None ==> no_sentence_end(pending)) by {
            if boundary is None {
                assert forall|k: int| 0 <= k < pending.len() implies !is_sentence_end(#[trigger] pending[k]) by {
                    if k < prev.pending.len() {
                        assert(pending[k] == prev.pending[k]);
                    }
                }
            }
        }
        assert(boundary matches Some(b) ==> 1 <= b <= n && is_sentence_end(pending[b - 1]) && forall|k: int|
            b <= k < n ==> !is_sentence_end(#[trigger] pending[k])) by {
            if let Some(b) = boundary {
                if !is_sentence_end(c) {
                    assert(pending[b - 1] == prev.pending[b - 1]);
                    assert forall|k: int| b <= k < n implies !is_sentence_end(#[trigger] pending[k]) by {
                        if k < prev.pending.len() {
                            assert(pending[k] == prev.pending[k]);
                        }
                    }
                }
            }
        }
        // chunks cut before keep their place and what follows them only grows
        assert forall|j: int| 0 <= j < prev.chunks.len() implies {
            &&& (#[trigger] prev.chunks.take(j + 1)).flatten().len() <= text.len()
            &&& (cut_at_sentence(prev.chunks[j], text_after_chunk(text, prev.chunks, j), max)
                || cut_at_limit(prev.chunks[j], max))
        } by {
            let off = prev.chunks.take(j + 1).flatten().len() as int;
            assert(text.skip(off) =~= t.skip(off).push(c));
            if cut_at_sentence(prev.chunks[j], text_after_chunk(t, prev.chunks, j), max) {
                lemma_cut_at_sentence_extend(prev.chunks[j], t.skip(off), c, max);
            }
        }
        if n >= max {
            let chunk = pending.take(cut as int);
            assert(st.chunks == prev.chunks.push(chunk));
            assert(st.pending == pending.skip(cut as int));
            assert(n == max);
            assert(no_sentence_end(st.pending)) by {
                assert forall|k: int| 0 <= k < st.pending.len() implies !is_sentence_end(#[trigger] st.pending[k]) by {
                    assert(st.pending[k] == pending[k + cut]);
                }
            }
            let m = prev.chunks.len() as int;
            assert forall|j: int| 0 <= j < st.chunks.len() implies {
                &&& (#[trigger] st.chunks.take(j + 1)).flatten().len() <= text.len()
                &&& (cut_at_sentence(st.chunks[j], text_after_chunk(text, st.chunks, j), max)
                    || cut_at_limit(st.chunks[j], max))
            } by {
                if j < m {
                    assert(st.chunks.take(j + 1) =~= prev.chunks.take(j + 1));
                    assert(st.chunks[j] == prev.chunks[j]);
                } else {
                    assert(st.chunks.take(j + 1) =~= st.chunks);
                    let f = prev.chunks.flatten();
                    assert(st.chunks.flatten() == f + chunk);
                    assert(text.skip((f.len() + cut) as int) =~= pending.skip(cut as int));
                    assert(st.chunks[j] == chunk);
                    let at_sentence = match boundary {
                        Some(b) => n - b <= SENTENCE_SEARCH_RANGE,
                        None => false,
                    };
                    if !at_sentence {
                        assert(cut == max);
                        assert(chunk =~= pending);
                        assert forall|k: int| 0 <= k < chunk.skip(max - limit_window(max)).len()
                            implies !is_sentence_end(#[trigger] chunk.skip(max - limit_window(max))[k]) by {
                            let p = k + max - limit_window(max);
                            assert(chunk.skip(max - limit_window(max))[k] == pending[p]);
                            if let Some(b) = boundary {
                                assert(n - b > SENTENCE_SEARCH_RANGE);
                                assert(b <= p);
                                assert(!is_sentence_end(pending[p]));
                            } else {
                                assert(!is_sentence_end(pending[p]));
                            }
                        }
                    } else {
                        let after = pending.skip(cut as int);
                        assert(after.take(max - cut) =~= after);
                        assert(chunk.last() == pending[cut - 1]);
                    }
                }
            }
        } else {
            assert(st.chunks == prev.chunks);
            assert(st.pending == pending);
        }
    }
}

/// Where the chunks end. With a positive limit, every chunk but the last either
/// ends right after a sentence end that lies at most 200 characters before the
/// limit, with no sentence end among the characters that follow it up to the
/// limit, or is cut at the limit itself, with no sentence end among its last
/// `min(201, max)` characters; the last chunk is one of these or shorter than the limit.
pub proof fn lemma_chunk_cut_points(text: Seq<char>, max: nat)
    requires
        max >= 1,
    ensures
        forall|i: int|
            0 <= i < text_chunks(text, max).len() ==> {
                ||| cut_at_sentence(
                    #[trigger] text_chunks(text, max)[i],
                    text_after_chunk(text, text_chunks(text, max), i),
                    max,
                )
                ||| cut_at_limit(text_chunks(text, max)[i], max)
                ||| (i == text_chunks(text, max).len() - 1 && text_chunks(text, max)[i].len() < max)
            },
{
    lemma_chunk_state_inv(text, max);
    lemma_chunk_cut_inv(text, max);
    let st = chunk_state(text, max);
    let cs = text_chunks(text, max);
    assert forall|i: int| 0 <= i < cs.len() implies {
        ||| cut_at_sentence(#[trigger] cs[i], text_after_chunk(text, cs, i), max)
        ||| cut_at_limit(cs[i], max)
        ||| (i == cs.len() - 1 && cs[i].len() < max)
    } by {
        if i < st.chunks.len() {
            assert(cs[i] == st.chunks[i]);
            assert(cs.take(i + 1) =~= st.chunks.take(i + 1));
            assert(st.chunks.take(i + 1).flatten().len() <= text.len());
        }
    }
}

pub open spec fn opt_nat(o: Option<usize>) -> Option<nat> {
    match o {
        Some(b) => Some(b as nat),
        None => None,
    }
}

/// Splits `text` into chunks of at most `max_chars` characters, preferring to cut
/// right after the last sentence end ('.', '!' or '?') when it lies no more than
/// 200 characters before the limit.
pub fn split_text_into_chunks(text: &str, max_chars: usize) -> (chunks: Vec<String>)
    ensures
        chunks@.len() == text_chunks(text@, max_chars as nat).len(),
        forall|i: int|
            0 <= i < chunks@.len() ==> #[trigger] chunks@[i]@ == text_chunks(
                text@,
                max_chars as nat,
            )[i],
{
    let chars = chars_of(text);
    let ghost max = max_chars as nat;
    let mut chunks: Vec<String> = Vec::new();
    let mut pending: Vec<char> = Vec::new();
    let mut boundary: Option<usize> = None;
    let mut i: usize = 0;
    assert(chars@.take(0) =~= Seq::<char>::empty());
    while i < chars.len()
        invariant
            chars@ == text@,
            max == max_chars as nat,
            i <= chars@.len(),
            chunk_state(chars@.take(i as int), max).pending == pending@,
            chunk_state(chars@.take(i as int), max).boundary == opt_nat(boundary),
            chunk_state(chars@.take(i as int), max).chunks.len() == chunks@.len(),
            forall|j: int|
                0 <= j < chunks@.len() ==> #[trigger] chunks@[j]@ == chunk_state(
                    chars@.take(i as int),
                    max,
                ).chunks[j],
            boundary matches Some(b) ==> b <= pending@.len(),
            pending@.len() <= i,
        decreases chars.len() - i,
    {
        let ghost prev = chunk_state(chars@.take(i as int), max);
        assert(chars@.take(i + 1).drop_last() =~= chars@.take(i as int));
        let c = chars[i];
        assert(chars@.take(i + 1).last() == c);
        pending.push(c);
        let n = pending.len();
        assert(pending@ == prev.pending.push(c));
        if c == '.' || c == '!' || c == '?' {
            boundary = Some(n);
        }
        let ghost spec_boundary = if is_sentence_end(c) { Some(n as nat) } else { prev.boundary };
        assert(opt_nat(boundary) == spec_boundary);
        if n >= max_chars {
            let cut: usize = match boundary {
                Some(b) => if n - b <= SENTENCE_SEARCH_RANGE { b } else { max_chars },
                None => max_chars,
            };
            assert(cut as nat == match spec_boundary {
                Some(b) => if n - b <= SENTENCE_SEARCH_RANGE { b } else { max },
                None => max,
            });
            let head = sub_chars(&pending, 0, cut);
            chunks.push(string_from_chars(&head));
            pending = sub_chars(&pending, cut, n);
            boundary = None;
        }
        i = i + 1;
        proof {
            let st = chunk_state(chars@.take(i as int), max);
            assert(st == chunk_step(prev, c, max));
            assert(pending@ =~= st.pending);
            assert(chunks@.len() == st.chunks.len());
        }
    }
    assert(chars@.take(i as int) =~= chars@);
    if pending.len() > 0 {
        chunks.push(string_from_chars(&pending));
    }
    chunks
}

} // verus!
