use vstd::prelude::*;
use crate::groot::{ascii_lowered, is_ascii_text, lowercase, lowercase_string};
use crate::stable_order::{stable_order, stably_sorted};
use crate::text::{
    chars_of, starts_with, starts_with_exec, trim, trim_chars, lines, lines_exec, seq_view,
    split_on, split_on_exec, replace_all, replace_all_exec, join_with, join_chars, string_from_chars,
    sub_chars, push_str, push_decimal, decimal, contains, contains_exec, copy_str, no_char, all_ws,
    occurs_at, lemma_join_with_cons, lemma_join_with_drop_last, lemma_lines_cons, lemma_lines_rejoin,
    lemma_no_occurrence_concat, lemma_no_occurrence_prefix, lemma_split_join, lemma_replace_absent,
    lemma_replace_prefix, lemma_trim_ws_around, strip_cr, is_ws,
};

verus! {

/// The header line that names the source of a channel's updates.
pub open spec fn source_marker() -> Seq<char> {
    "ИСТОЧНИК ОБНОВЛЕНИЙ:"@
}

/// The line that opens each update.
pub open spec fn update_marker() -> Seq<char> {
    "===ТЕКСТ ОБНОВЛЕНИЯ==="@
}

/// The line that closes each update.
pub open spec fn end_marker() -> Seq<char> {
    "===КОНЕЦ==="@
}

/// `s` with every leading repetition of `p` removed (`trim_start_matches`).
pub open spec fn strip_repeated(s: Seq<char>, p: Seq<char>) -> Seq<char>
    decreases s.len(),
{
    if p.len() > 0 && starts_with(s, p) {
        strip_repeated(s.skip(p.len() as int), p)
    } else {
        s
    }
}

fn strip_repeated_exec(s: &[char], p: &[char]) -> (res: Vec<char>)
    ensures
        res@ == strip_repeated(s@, p@),
{
    let mut start: usize = 0;
    assert(s@.skip(0) =~= s@);
    while p.len() > 0 && start <= s.len() && p.len() <= s.len() - start && starts_with_exec(
        &sub_chars(s, start, s.len()),
        p,
    )
        invariant
            start <= s@.len(),
            strip_repeated(s@, p@) == strip_repeated(s@.skip(start as int), p@),
        decreases s.len() - start,
    {
        proof {
            assert(s@.skip(start as int).skip(p@.len() as int) =~= s@.skip(start + p@.len()));
        }
        start = start + p.len();
    }
    let res = sub_chars(s, start, s.len());
    proof {
        assert(res@ =~= s@.skip(start as int));
        if p@.len() > 0 && starts_with(s@.skip(start as int), p@) {
            assert(p@.len() <= s@.len() - start);
        }
    }
    res
}

/// Where the first line that starts with the source header stands.
pub open spec fn source_line(ls: Seq<Seq<char>>) -> Option<int>
    decreases ls.len(),
{
    if ls.len() == 0 {
        None
    } else if starts_with(ls[0], source_marker()) {
        Some(0)
    } else {
        match source_line(ls.subrange(1, ls.len() as int)) {
            Some(k) => Some(k + 1),
            None => None,
        }
    }
}

proof fn lemma_source_line(ls: Seq<Seq<char>>)
    ensures
        match source_line(ls) {
            Some(k) => 0 <= k < ls.len() && starts_with(ls[k], source_marker()) && forall|j: int|
                0 <= j < k ==> !starts_with(#[trigger] ls[j], source_marker()),
            None => forall|j: int| 0 <= j < ls.len() ==> !starts_with(#[trigger] ls[j], source_marker()),
        },
    decreases ls.len(),
{
    if ls.len() > 0 && !starts_with(ls[0], source_marker()) {
        let rest = ls.subrange(1, ls.len() as int);
        lemma_source_line(rest);
        assert forall|j: int| 1 <= j < ls.len() implies ls[j] == rest[j - 1] by {}
    }
}

/// The updates of a block of text: the pieces between the update markers,
/// without end markers, trimmed, the empty ones dropped.
pub open spec fn update_texts(parts: Seq<Seq<char>>) -> Seq<Seq<char>>
    decreases parts.len(),
{
    if parts.len() == 0 {
        Seq::empty()
    } else {
        let t = trim(replace_all(parts.last(), end_marker(), Seq::empty()));
        if t.len() > 0 {
            update_texts(parts.drop_last()).push(t)
        } else {
            update_texts(parts.drop_last())
        }
    }
}

/// The source and the updates that a channel file holds. The source is the
/// text after the header on the first line that starts with it, else
/// "Не определено"; the updates come from the lines after that line (none
/// without it).
pub open spec fn channel_file(content: Seq<char>) -> (Seq<char>, Seq<Seq<char>>) {
    let ls = lines(content);
    match source_line(ls) {
        Some(k) => (
            trim(strip_repeated(ls[k], source_marker())),
            update_texts(split_on(join_with(ls.skip(k + 1), "\n"@), update_marker())),
        ),
        None => ("Не определено"@, Seq::empty()),
    }
}

fn update_texts_exec(parts: &Vec<Vec<char>>) -> (res: Vec<String>)
    ensures
        res@.map_values(|t: String| t@) == update_texts(seq_view(parts@)),
{
    let ghost pv = seq_view(parts@);
    let end = chars_of("===КОНЕЦ===");
    let none: Vec<char> = Vec::new();
    let mut out: Vec<String> = Vec::new();
    let mut i: usize = 0;
    while i < parts.len()
        invariant
            i <= parts@.len(),
            pv == seq_view(parts@),
            end@ == end_marker(),
            none@ == Seq::<char>::empty(),
            out@.map_values(|t: String| t@) == update_texts(pv.take(i as int)),
        decreases parts.len() - i,
    {
        let replaced = replace_all_exec(parts[i].as_slice(), end.as_slice(), none.as_slice());
        let t = trim_chars(replaced.as_slice());
        let ghost before = out@;
        proof {
            assert(pv.take(i + 1).drop_last() =~= pv.take(i as int));
            assert(pv.take(i + 1).last() == parts@[i as int]@);
        }
        if t.len() > 0 {
            let ts = string_from_chars(t.as_slice());
            out.push(ts);
            proof {
                assert(out@.map_values(|x: String| x@) =~= before.map_values(|x: String| x@).push(t@));
            }
        }
        i = i + 1;
    }
    proof {
        assert(pv.take(parts@.len() as int) =~= pv);
    }
    out
}

/// Reads a channel file: its source, and its updates in order.
pub fn parse_channel_file(content: &str) -> (res: (String, Vec<String>))
    ensures
        res.0@ == channel_file(content@).0,
        res.1@.map_values(|t: String| t@) == channel_file(content@).1,
{
    let cs = chars_of(content);
    let ls = lines_exec(cs.as_slice());
    let ghost lv = seq_view(ls@);
    let marker = chars_of("ИСТОЧНИК ОБНОВЛЕНИЙ:");
    proof {
        lemma_source_line(lv);
    }
    let mut k: usize = 0;
    while k < ls.len()
        invariant
            k <= ls@.len(),
            lv == seq_view(ls@),
            marker@ == source_marker(),
            forall|j: int| 0 <= j < k ==> !starts_with(#[trigger] lv[j], source_marker()),
        ensures
            k <= ls@.len(),
            lv == seq_view(ls@),
            forall|j: int| 0 <= j < k ==> !starts_with(#[trigger] lv[j], source_marker()),
            k < ls@.len() ==> starts_with(lv[k as int], source_marker()),
        decreases ls.len() - k,
    {
        if starts_with_exec(ls[k].as_slice(), marker.as_slice()) {
            break;
        }
        k = k + 1;
    }
    if k == ls.len() {
        proof {
            lemma_source_line(lv);
            if source_line(lv) is Some {
                let p = source_line(lv)->0;
                assert(starts_with(lv[p], source_marker()));
            }
        }
        let none: Vec<String> = Vec::new();
        assert(none@.map_values(|t: String| t@) =~= Seq::<Seq<char>>::empty());
        return (copy_str("Не определено"), none);
    }
    proof {
        lemma_source_line(lv);
        let p = source_line(lv)->0;
        assert(!(p < k));
        assert(!(p > k));
    }
    let stripped = strip_repeated_exec(ls[k].as_slice(), marker.as_slice());
    let source = trim_chars(stripped.as_slice());
    let mut rest: Vec<Vec<char>> = Vec::new();
    let mut j: usize = k + 1;
    while j < ls.len()
        invariant
            k < j <= ls@.len(),
            lv == seq_view(ls@),
            seq_view(rest@) == lv.subrange(k + 1, j as int),
        decreases ls.len() - j,
    {
        let line = sub_chars(ls[j].as_slice(), 0, ls[j].len());
        let ghost before = rest@;
        rest.push(line);
        proof {
            assert(seq_view(rest@) =~= seq_view(before).push(line@));
            assert(line@ =~= lv[j as int]);
            assert(lv.subrange(k + 1, j + 1) =~= lv.subrange(k + 1, j as int).push(lv[j as int]));
        }
        j = j + 1;
    }
    proof {
        assert(lv.subrange(k + 1, ls@.len() as int) =~= lv.skip(k + 1));
    }
    let nl = chars_of("\n");
    let remaining = join_chars(&rest, nl.as_slice());
    let upd = chars_of("===ТЕКСТ ОБНОВЛЕНИЯ===");
    proof {
        reveal_strlit("===ТЕКСТ ОБНОВЛЕНИЯ===");
    }
    let parts = split_on_exec(remaining.as_slice(), upd.as_slice());
    let messages = update_texts_exec(&parts);
    (string_from_chars(source.as_slice()), messages)
}


/// News items voiced in one text-to-speech request.
pub const BODY_GROUP_SIZE: usize = 3;

/// The body items grouped by three, each group joined with a blank line.
pub open spec fn grouped_body(body: Seq<Seq<char>>) -> Seq<Seq<char>>
    decreases body.len(),
{
    if body.len() == 0 {
        Seq::empty()
    } else if body.len() <= 3 {
        seq![join_with(body, "\n\n"@)]
    } else {
        seq![join_with(body.take(3), "\n\n"@)] + grouped_body(body.skip(3))
    }
}

/// The texts voiced for a podcast: the intro, the body in groups of three,
/// and the outro.
pub open spec fn voice_parts(intro: Seq<char>, body: Seq<Seq<char>>, outro: Seq<char>) -> Seq<Seq<char>> {
    seq![intro] + grouped_body(body) + seq![outro]
}

pub open spec fn texts_of(v: Seq<String>) -> Seq<Seq<char>> {
    v.map_values(|t: String| t@)
}

/// The texts voiced for a podcast.
pub fn parts_to_voice(intro: &str, body: &Vec<String>, outro: &str) -> (res: Vec<String>)
    ensures
        texts_of(res@) == voice_parts(intro@, texts_of(body@), outro@),
{
    let ghost bv = texts_of(body@);
    let mut out: Vec<String> = Vec::new();
    out.push(copy_str(intro));
    let sep = chars_of("\n\n");
    let mut i: usize = 0;
    proof {
        assert(bv.skip(0) =~= bv);
        assert(texts_of(out@) =~= seq![intro@]);
    }
    while i < body.len()
        invariant
            i <= body@.len(),
            bv == texts_of(body@),
            sep@ == "\n\n"@,
            texts_of(out@) + grouped_body(bv.skip(i as int)) == seq![intro@] + grouped_body(bv),
        decreases body.len() - i,
    {
        let end = if body.len() - i <= 3 {
            body.len()
        } else {
            i + 3
        };
        let mut group: Vec<Vec<char>> = Vec::new();
        let mut j: usize = i;
        while j < end
            invariant
                i <= j <= end <= body@.len(),
                bv == texts_of(body@),
                seq_view(group@) == bv.subrange(i as int, j as int),
            decreases end - j,
        {
            let g = chars_of(body[j].as_str());
            let ghost before = group@;
            group.push(g);
            proof {
                assert(seq_view(group@) =~= seq_view(before).push(g@));
                assert(bv.subrange(i as int, j + 1) =~= bv.subrange(i as int, j as int).push(bv[j as int]));
            }
            j = j + 1;
        }
        let joined = join_chars(&group, sep.as_slice());
        let ghost before = out@;
        out.push(string_from_chars(joined.as_slice()));
        proof {
            let rest = bv.skip(i as int);
            assert(rest.len() > 0);
            if rest.len() <= 3 {
                assert(bv.subrange(i as int, end as int) =~= rest);
                assert(bv.skip(end as int) =~= Seq::<Seq<char>>::empty());
                assert(grouped_body(rest) == seq![join_with(rest, "\n\n"@)]);
            } else {
                assert(bv.subrange(i as int, end as int) =~= rest.take(3));
                assert(rest.skip(3) =~= bv.skip(end as int));
                assert(grouped_body(rest) == seq![join_with(rest.take(3), "\n\n"@)] + grouped_body(rest.skip(3)));
            }
            assert(texts_of(out@) =~= texts_of(before).push(joined@));
            assert(texts_of(out@) + grouped_body(bv.skip(end as int)) =~= texts_of(before) + grouped_body(rest));
        }
        i = end;
    }
    let ghost before = out@;
    out.push(copy_str(outro));
    proof {
        assert(bv.skip(body@.len() as int) =~= Seq::<Seq<char>>::empty());
        assert(texts_of(out@) =~= texts_of(before).push(outro@));
        assert(texts_of(before) =~= seq![intro@] + grouped_body(bv));
    }
    out
}

proof fn lemma_grouped_body_len(body: Seq<Seq<char>>)
    ensures
        grouped_body(body).len() == (body.len() + 2) / 3,
    decreases body.len(),
{
    if body.len() > 3 {
        lemma_grouped_body_len(body.skip(3));
    }
}

/// A podcast is voiced in two parts more than there are groups of three
/// news items: the intro, one part per group, and the outro.
pub proof fn lemma_voice_part_count(intro: Seq<char>, body: Seq<Seq<char>>, outro: Seq<char>)
    ensures
        voice_parts(intro, body, outro).len() == 2 + (body.len() + 2) / 3,
        voice_parts(intro, body, outro)[0] == intro,
        voice_parts(intro, body, outro).last() == outro,
{
    lemma_grouped_body_len(body);
}

/// The file that collects a channel's updates: the channel's name with
/// spaces and slashes made underscores, in the user's directory.
pub open spec fn channel_file_path(dir: Seq<char>, chat_name: Seq<char>) -> Seq<char> {
    dir + "/"@ + replace_all(replace_all(chat_name, " "@, "_"@), "/"@, "_"@) + ".txt"@
}

/// The path of the file that collects a channel's updates.
pub fn channel_updates_file(dir: &str, chat_name: &str) -> (res: String)
    ensures
        res@ == channel_file_path(dir@, chat_name@),
{
    let name = chars_of(chat_name);
    let space = chars_of(" ");
    let slash = chars_of("/");
    let under = chars_of("_");
    let a = replace_all_exec(name.as_slice(), space.as_slice(), under.as_slice());
    let b = replace_all_exec(a.as_slice(), slash.as_slice(), under.as_slice());
    let mut out = chars_of(dir);
    push_str(&mut out, "/");
    crate::text::append_chars(&mut out, b.as_slice());
    push_str(&mut out, ".txt");
    string_from_chars(out.as_slice())
}

/// Whether the model's verdict on a channel message keeps it: the verdict,
/// trimmed and lowercased, says "ok" and does not say "skip".
pub open spec fn keeps_message(verdict: Seq<char>) -> bool {
    let d = lowercase(trim(verdict));
    contains(d, "ok"@) && !contains(d, "skip"@)
}

/// `keeps_message` for a verdict whose trimmed text is ASCII.
pub open spec fn keeps_message_ascii(verdict: Seq<char>) -> bool {
    let d = ascii_lowered(trim(verdict));
    contains(d, "ok"@) && !contains(d, "skip"@)
}

/// Whether a channel message is kept for the podcast, by the model's verdict.
pub fn is_useful_update(verdict: &str) -> (res: bool)
    ensures
        res == keeps_message(verdict@),
        is_ascii_text(trim(verdict@)) ==> res == keeps_message_ascii(verdict@),
{
    let vc = chars_of(verdict);
    let t = trim_chars(vc.as_slice());
    let ts = string_from_chars(t.as_slice());
    let lower = lowercase_string(ts.as_str());
    let d = chars_of(lower.as_str());
    let ok = chars_of("ok");
    let skip = chars_of("skip");
    let has_ok = contains_exec(d.as_slice(), ok.as_slice());
    let has_skip = contains_exec(d.as_slice(), skip.as_slice());
    has_ok && !has_skip
}

/// How the voiced parts become one file.
#[derive(Clone, Copy, Debug, PartialEq, Eq, Structural)]
pub enum MergePlan {
    /// Nothing was voiced: an error.
    NothingToMerge,
    /// One part is the podcast as it is.
    SinglePart,
    /// The parts are joined with pauses.
    Concatenate,
}

/// How `count` voiced parts become one file.
pub fn merge_plan(count: usize) -> (res: MergePlan)
    ensures
        res == if count == 0 {
            MergePlan::NothingToMerge
        } else if count == 1 {
            MergePlan::SinglePart
        } else {
            MergePlan::Concatenate
        },
{
    if count == 0 {
        MergePlan::NothingToMerge
    } else if count == 1 {
        MergePlan::SinglePart
    } else {
        MergePlan::Concatenate
    }
}

/// The silence inserted between two parts.
pub open spec fn silence_source() -> Seq<char> {
    "anullsrc=channel_layout=stereo:sample_rate=44100:duration=1.5"@
}

pub open spec fn silence_streams(k: nat) -> Seq<char>
    decreases k,
{
    if k == 0 {
        Seq::empty()
    } else if k == 1 {
        silence_source() + "[silence0]"@
    } else {
        silence_streams((k - 1) as nat) + ";"@ + silence_source() + "[silence"@ + decimal((k - 1) as nat)
            + "]"@
    }
}

pub open spec fn concat_inputs(n: nat, k: nat) -> Seq<char>
    decreases k,
{
    if k == 0 {
        Seq::empty()
    } else {
        concat_inputs(n, (k - 1) as nat) + "["@ + decimal((k - 1) as nat) + ":a]"@ + if k < n {
            "[silence"@ + decimal((k - 1) as nat) + "]"@
        } else {
            Seq::empty()
        }
    }
}

/// The filter graph that joins `n` parts with a pause after each but the
/// last: `n - 1` silences, then the parts and silences in turn, concatenated.
pub open spec fn merge_filter(n: nat) -> Seq<char> {
    silence_streams((n - 1) as nat) + ";"@ + concat_inputs(n, n) + "concat=n="@ + decimal(
        (2 * n - 1) as nat,
    ) + ":v=0:a=1[out]"@
}

/// The filter graph that joins `n` (at least two) parts with pauses.
pub fn merge_filter_graph(n: usize) -> (res: String)
    requires
        2 <= n,
        2 * n <= u64::MAX,
    ensures
        res@ == merge_filter(n as nat),
{
    let mut out: Vec<char> = Vec::new();
    let mut k: usize = 1;
    push_str(&mut out, "anullsrc=channel_layout=stereo:sample_rate=44100:duration=1.5");
    push_str(&mut out, "[silence0]");
    while k < n - 1
        invariant
            1 <= k <= n - 1,
            out@ == silence_streams(k as nat),
        decreases n - 1 - k,
    {
        push_str(&mut out, ";");
        push_str(&mut out, "anullsrc=channel_layout=stereo:sample_rate=44100:duration=1.5");
        push_str(&mut out, "[silence");
        push_decimal(&mut out, k as u64);
        push_str(&mut out, "]");
        k = k + 1;
        assert(out@ =~= silence_streams(k as nat));
    }
    push_str(&mut out, ";");
    let ghost head = out@;
    let mut j: usize = 0;
    assert(out@ =~= head + concat_inputs(n as nat, 0));
    while j < n
        invariant
            j <= n,
            out@ == head + concat_inputs(n as nat, j as nat),
        decreases n - j,
    {
        push_str(&mut out, "[");
        push_decimal(&mut out, j as u64);
        push_str(&mut out, ":a]");
        if j + 1 < n {
            push_str(&mut out, "[silence");
            push_decimal(&mut out, j as u64);
            push_str(&mut out, "]");
        }
        j = j + 1;
        assert(out@ =~= head + concat_inputs(n as nat, j as nat));
    }
    push_str(&mut out, "concat=n=");
    push_decimal(&mut out, (n as u64) * 2 - 1);
    push_str(&mut out, ":v=0:a=1[out]");
    assert(out@ =~= merge_filter(n as nat));
    string_from_chars(out.as_slice())
}

/// Parts voiced in parallel in one batch.
pub const TTS_BATCH_SIZE: usize = 9;

/// Attempts per part before the voicing fails.
pub const TTS_MAX_RETRIES: u32 = 3;

/// Seconds between two batches.
pub const TTS_BATCH_DELAY_SECS: u64 = 60;

/// After a failed attempt at voicing a part: wait and retry, or give up.
pub open spec fn retry_delay(attempt: u32) -> Option<u64> {
    if attempt < TTS_MAX_RETRIES {
        Some(if attempt == 1 {
            2u64
        } else {
            4u64
        })
    } else {
        None
    }
}

/// Seconds to wait after failed attempt `attempt` (from 1) before the next
/// one; `None` once the attempts are used up. The wait doubles each time.
pub fn tts_retry_delay(attempt: u32) -> (res: Option<u64>)
    requires
        1 <= attempt,
    ensures
        res == retry_delay(attempt),
{
    if attempt < TTS_MAX_RETRIES {
        if attempt == 1 {
            Some(2)
        } else {
            Some(4)
        }
    } else {
        None
    }
}

/// Batch `b` of `n` parts: the index of its first part and how many parts it has.
pub open spec fn tts_batch(n: int, b: int) -> (int, int) {
    let start = b * TTS_BATCH_SIZE;
    (start, if n - start < TTS_BATCH_SIZE { n - start } else { TTS_BATCH_SIZE as int })
}

/// How `n` parts are voiced: in batches of nine, in order, the last one
/// possibly shorter; each batch is given by its first part index and its size,
/// so part `i` of batch `b` is part `9 * b + i` of the podcast.
pub fn tts_batches(n: usize) -> (res: Vec<(usize, usize)>)
    requires
        n + 8 <= usize::MAX,
    ensures
        res@.len() == (n + 8) / 9,
        forall|b: int| 0 <= b < res@.len() ==> (#[trigger] res@[b]).0 == tts_batch(n as int, b).0
            && res@[b].1 == tts_batch(n as int, b).1,
{
    let mut res: Vec<(usize, usize)> = Vec::new();
    let mut start: usize = 0;
    while start < n
        invariant
            n + 8 <= usize::MAX,
            start == res@.len() * 9,
            start <= n + 8,
            forall|b: int| 0 <= b < res@.len() ==> (#[trigger] res@[b]).0 == tts_batch(n as int, b).0
                && res@[b].1 == tts_batch(n as int, b).1,
        decreases n + 8 - start,
    {
        let len: usize = if n - start < TTS_BATCH_SIZE { n - start } else { TTS_BATCH_SIZE };
        let ghost b = res@.len() as int;
        res.push((start, len));
        assert(res@[b] == (start, len));
        start = start + TTS_BATCH_SIZE;
    }
    proof {
        let k = res@.len() as int;
        assert(k == (n + 8) / 9) by (nonlinear_arith)
            requires
                k * 9 >= n,
                k * 9 <= n + 8,
                k >= 0,
                n >= 0,
        ;
    }
    res
}

/// Whether a pause follows batch `batch_idx` of `n` parts: after every batch
/// but the last.
pub fn pause_after_batch(batch_idx: usize, n: usize) -> (res: bool)
    requires
        n + 8 <= usize::MAX,
    ensures
        res == (batch_idx + 1 < (n + 8) / 9),
{
    let batches = (n + 8) / 9;
    batches > 0 && batch_idx < batches - 1
}


/// The part indices of a batch's voiced parts, as sort keys.
pub open spec fn part_keys(results: Seq<(usize, String)>) -> Seq<u64> {
    results.map_values(|r: (usize, String)| r.0 as u64)
}

/// The voiced files of a batch, put back in the order of their part indices
/// (the parts may finish in any order; a stable sort by index).
pub fn order_voiced_parts(results: &Vec<(usize, String)>) -> (paths: Vec<String>)
    ensures
        paths@.len() == results@.len(),
        exists|order: Seq<usize>|
            #![trigger stably_sorted(part_keys(results@), order, results@.len() as int)]
            order.len() == results@.len() && stably_sorted(part_keys(results@), order, results@.len() as int)
                && forall|i: int| 0 <= i < paths@.len() ==> (#[trigger] paths@[i])@ == results@[order[i] as int].1@,
{
    let mut keys: Vec<u64> = Vec::new();
    let mut k: usize = 0;
    while k < results.len()
        invariant
            k <= results@.len(),
            keys@.len() == k,
            forall|j: int| 0 <= j < k ==> keys@[j] == part_keys(results@)[j],
        decreases results.len() - k,
    {
        keys.push(results[k].0 as u64);
        k = k + 1;
    }
    assert(keys@ =~= part_keys(results@));
    let order = stable_order(&keys);
    let mut paths: Vec<String> = Vec::new();
    let mut i: usize = 0;
    while i < order.len()
        invariant
            i <= order@.len(),
            order@.len() == results@.len(),
            keys@ == part_keys(results@),
            stably_sorted(keys@, order@, results@.len() as int),
            paths@.len() == i,
            forall|j: int| 0 <= j < i ==> (#[trigger] paths@[j])@ == results@[order@[j] as int].1@,
        decreases order.len() - i,
    {
        let p = results[order[i]].1.clone();
        paths.push(p);
        i = i + 1;
    }
    assert(stably_sorted(part_keys(results@), order@, results@.len() as int));
    paths
}

/// Who a podcast is made for.
#[derive(Clone, Copy, Debug, PartialEq, Eq, Structural)]
pub enum Recipient {
    Public,
    Private(u64),
}

/// Where the channels of a podcast come from.
#[derive(Clone, Copy, Debug, PartialEq, Eq, Structural)]
pub enum ChannelSource {
    /// The channels the agent is subscribed to (the public podcast).
    AgentSubscriptions,
    /// The chats the user chose, read from the database.
    UserChats(u64),
}

/// Why a podcast cannot be made.
#[derive(Clone, Copy, Debug, PartialEq, Eq, Structural)]
pub enum PodcastSourceError {
    /// A private podcast needs the database of the users' chats.
    DatabaseRequired,
}

impl PodcastSourceError {
    pub fn message(&self) -> (res: &'static str)
        ensures
            res@ == "Database pool is required for private podcast generation"@,
    {
        "Database pool is required for private podcast generation"
    }
}

/// Where the channels of a podcast for `recipient` come from: the agent's
/// subscriptions for the public podcast, the user's chats for a private one,
/// which needs the database (`has_database`).
pub fn podcast_channel_source(recipient: Recipient, has_database: bool) -> (res: Result<
    ChannelSource,
    PodcastSourceError,
>)
    ensures
        res == match recipient {
            Recipient::Public => Ok(ChannelSource::AgentSubscriptions),
            Recipient::Private(user_id) => if has_database {
                Ok(ChannelSource::UserChats(user_id))
            } else {
                Err(PodcastSourceError::DatabaseRequired)
            },
        },
{
    match recipient {
        Recipient::Public => Ok(ChannelSource::AgentSubscriptions),
        Recipient::Private(user_id) => if has_database {
            Ok(ChannelSource::UserChats(user_id))
        } else {
            Err(PodcastSourceError::DatabaseRequired)
        },
    }
}

/// How the podcast addresses its listener: "Public" for the public podcast,
/// the user's nickname where one is stored, else "Друг".
pub fn podcast_addressee(recipient: Recipient, nickname: Option<&str>) -> (res: String)
    ensures
        res@ == match recipient {
            Recipient::Public => "Public"@,
            Recipient::Private(_) => match nickname {
                Some(n) => n@,
                None => "Друг"@,
            },
        },
{
    match recipient {
        Recipient::Public => copy_str("Public"),
        Recipient::Private(_) => match nickname {
            Some(n) => copy_str(n),
            None => copy_str("Друг"),
        },
    }
}

/// The working directory of a user's podcast.
pub fn user_tmp_dir(user_id: &str) -> (res: String)
    ensures
        res@ == "common_res/the_viper_room/tmp/"@ + user_id@,
{
    let mut out: Vec<char> = Vec::new();
    push_str(&mut out, "common_res/the_viper_room/tmp/");
    push_str(&mut out, user_id);
    string_from_chars(out.as_slice())
}

/// Where the latest podcast of a recipient is kept.
pub fn daily_podcast_dir(recipient: Recipient) -> (res: String)
    ensures
        res@ == match recipient {
            Recipient::Public => "common_res/the_viper_room/daily_public_podcast"@,
            Recipient::Private(id) => "common_res/the_viper_room/"@ + decimal(id as nat)
                + "/daily_private_podcast"@,
        },
{
    match recipient {
        Recipient::Public => copy_str("common_res/the_viper_room/daily_public_podcast"),
        Recipient::Private(id) => {
            let mut out: Vec<char> = Vec::new();
            push_str(&mut out, "common_res/the_viper_room/");
            push_decimal(&mut out, id);
            push_str(&mut out, "/daily_private_podcast");
            string_from_chars(out.as_slice())
        },
    }
}

/// The name of a podcast file for a date (`YYYY-MM-DD`).
pub fn podcast_file_name(date: &str) -> (res: String)
    ensures
        res@ == "The_Viper_Podcast_("@ + date@ + ")"@,
{
    let mut out: Vec<char> = Vec::new();
    push_str(&mut out, "The_Viper_Podcast_(");
    push_str(&mut out, date);
    push_str(&mut out, ")");
    string_from_chars(out.as_slice())
}

/// The request that asks the model to review one update.
pub fn update_review_request(source: &str, text: &str) -> (res: String)
    ensures
        res@ == "Источник обновления: "@ + source@ + "\nТекст обновления:\n"@ + text@,
{
    let mut out: Vec<char> = Vec::new();
    push_str(&mut out, "Источник обновления: ");
    push_str(&mut out, source);
    push_str(&mut out, "\nТекст обновления:\n");
    push_str(&mut out, text);
    string_from_chars(out.as_slice())
}

/// The entry of the updates file for a reviewed update: the source and the
/// trimmed review; `None` for an empty review, which is left out.
pub fn update_review_entry(source: &str, review: &str) -> (res: Option<String>)
    ensures
        match res {
            Some(e) => trim(review@).len() > 0 && e@ == "Источник обновления: "@ + source@
                + "\nОбзор обновления:\n"@ + trim(review@) + "\n\n"@,
            None => trim(review@).len() == 0,
        },
{
    let rc = chars_of(review);
    let t = trim_chars(rc.as_slice());
    if t.len() == 0 {
        return None;
    }
    let mut out: Vec<char> = Vec::new();
    push_str(&mut out, "Источник обновления: ");
    push_str(&mut out, source);
    push_str(&mut out, "\nОбзор обновления:\n");
    crate::text::append_chars(&mut out, t.as_slice());
    push_str(&mut out, "\n\n");
    Some(string_from_chars(out.as_slice()))
}

/// The start of a channel file: the line naming its source, then an empty line.
pub open spec fn channel_header_text(chat_name: Seq<char>) -> Seq<char> {
    source_marker() + " "@ + chat_name + "\n\n"@
}

/// The block of a channel file that holds one kept message.
pub open spec fn channel_entry_text(text: Seq<char>) -> Seq<char> {
    update_marker() + "\n"@ + text + "\n"@ + end_marker() + "\n\n"@
}

/// The blocks of the kept messages, in order.
pub open spec fn channel_entries_text(texts: Seq<Seq<char>>) -> Seq<char>
    decreases texts.len(),
{
    if texts.len() == 0 {
        Seq::empty()
    } else {
        channel_entries_text(texts.drop_last()) + channel_entry_text(texts.last())
    }
}

/// The first line of a channel file, naming its source.
pub fn channel_file_header(chat_name: &str) -> (res: String)
    ensures
        res@ == channel_header_text(chat_name@),
{
    let mut out: Vec<char> = Vec::new();
    push_str(&mut out, "ИСТОЧНИК ОБНОВЛЕНИЙ:");
    push_str(&mut out, " ");
    push_str(&mut out, chat_name);
    push_str(&mut out, "\n\n");
    string_from_chars(out.as_slice())
}

/// The block of a channel file that holds one kept message.
pub fn channel_file_entry(text: &str) -> (res: String)
    ensures
        res@ == channel_entry_text(text@),
{
    let mut out: Vec<char> = Vec::new();
    push_str(&mut out, "===ТЕКСТ ОБНОВЛЕНИЯ===");
    push_str(&mut out, "\n");
    push_str(&mut out, text);
    push_str(&mut out, "\n");
    push_str(&mut out, "===КОНЕЦ===");
    push_str(&mut out, "\n\n");
    string_from_chars(out.as_slice())
}

/// A message that a channel file carries unchanged but for surrounding
/// white space: it holds no carriage return and neither marker.
pub open spec fn storable_update(text: Seq<char>) -> bool {
    &&& no_char(text, '\r')
    &&& !contains(text, update_marker())
    &&& !contains(text, end_marker())
}

/// The messages, trimmed, without those that are blank, in order.
pub open spec fn kept_updates(texts: Seq<Seq<char>>) -> Seq<Seq<char>>
    decreases texts.len(),
{
    if texts.len() == 0 {
        Seq::empty()
    } else if trim(texts.last()).len() > 0 {
        kept_updates(texts.drop_last()).push(trim(texts.last()))
    } else {
        kept_updates(texts.drop_last())
    }
}

proof fn lemma_marker_facts()
    ensures
        "\n"@ == seq!['\n'],
        "\n\n"@ == seq!['\n', '\n'],
        " "@ == seq![' '],
        source_marker().len() == 20,
        update_marker().len() == 22,
        end_marker().len() == 11,
        no_char(source_marker(), '\n') && no_char(source_marker(), '\r'),
        no_char(update_marker(), '\n') && no_char(update_marker(), '\r'),
        no_char(end_marker(), '\n') && no_char(end_marker(), '\r'),
        source_marker()[0] != ' ',
        update_marker()[0] == '=',
{
    reveal_strlit("\n");
    reveal_strlit("\n\n");
    reveal_strlit(" ");
    reveal_strlit("ИСТОЧНИК ОБНОВЛЕНИЙ:");
    reveal_strlit("===ТЕКСТ ОБНОВЛЕНИЯ===");
    reveal_strlit("===КОНЕЦ===");
}

/// The piece of a channel file between the marker that opens a message's
/// block and the next such marker.
pub open spec fn entry_piece(text: Seq<char>) -> Seq<char> {
    seq!['\n'] + text + seq!['\n'] + end_marker() + seq!['\n', '\n']
}

pub open spec fn entry_pieces(texts: Seq<Seq<char>>) -> Seq<Seq<char>> {
    seq![seq!['\n']] + texts.map_values(|t: Seq<char>| entry_piece(t))
}

proof fn lemma_entry_text(text: Seq<char>)
    ensures
        channel_entry_text(text) == update_marker() + entry_piece(text),
{
    lemma_marker_facts();
    assert(channel_entry_text(text) =~= update_marker() + entry_piece(text));
}

proof fn lemma_entries_no_cr(texts: Seq<Seq<char>>)
    requires
        forall|i: int| 0 <= i < texts.len() ==> no_char(#[trigger] texts[i], '\r'),
    ensures
        no_char(channel_entries_text(texts), '\r'),
    decreases texts.len(),
{
    if texts.len() > 0 {
        lemma_entries_no_cr(texts.drop_last());
        lemma_entry_text(texts.last());
        lemma_marker_facts();
        let t = texts.last();
        assert(no_char(t, '\r'));
        let e = channel_entry_text(t);
        let p = entry_piece(t);
        assert forall|k: int| 0 <= k < e.len() implies e[k] != '\r' by {
            let um = update_marker();
            if k < um.len() {
                assert(e[k] == um[k]);
            } else {
                let j = k - um.len();
                assert(e[k] == p[j]);
                if 1 <= j < 1 + t.len() {
                    assert(p[j] == t[j - 1]);
                } else if 2 + t.len() <= j < 2 + t.len() + 11 {
                    assert(p[j] == end_marker()[j - 2 - t.len()]);
                }
            }
        }
        let all = channel_entries_text(texts);
        let prev = channel_entries_text(texts.drop_last());
        assert forall|k: int| 0 <= k < all.len() implies all[k] != '\r' by {
            if k < prev.len() {
                assert(all[k] == prev[k]);
            } else {
                assert(all[k] == e[k - prev.len()]);
            }
        }
    }
}

/// A line feed followed by the blocks is the pieces joined by the opening marker.
proof fn lemma_entries_join(texts: Seq<Seq<char>>)
    ensures
        seq!['\n'] + channel_entries_text(texts) == join_with(entry_pieces(texts), update_marker()),
    decreases texts.len(),
{
    let nl = seq!['\n'];
    let ps = entry_pieces(texts);
    if texts.len() == 0 {
        assert(ps =~= seq![nl]);
        assert(nl + channel_entries_text(texts) =~= nl);
    } else {
        lemma_entries_join(texts.drop_last());
        lemma_entry_text(texts.last());
        assert(ps.drop_last() =~= entry_pieces(texts.drop_last()));
        assert(ps.last() == entry_piece(texts.last()));
        assert(nl + channel_entries_text(texts) =~= (nl + channel_entries_text(texts.drop_last()))
            + update_marker() + entry_piece(texts.last()));
    }
}

proof fn lemma_short_absent(s: Seq<char>, p: Seq<char>)
    requires
        s.len() < p.len(),
    ensures
        !contains(s, p),
{
    assert forall|j: int| !occurs_at(s, p, j) by {}
}

/// A message's piece holds no opening marker.
proof fn lemma_piece_without_marker(text: Seq<char>)
    requires
        storable_update(text),
    ensures
        !contains(entry_piece(text), update_marker()),
{
    lemma_marker_facts();
    let nl = seq!['\n'];
    let um = update_marker();
    lemma_short_absent(nl, um);
    lemma_short_absent(end_marker(), um);
    lemma_short_absent(seq!['\n', '\n'], um);
    lemma_no_occurrence_concat(nl, text, um);
    let a1 = nl + text;
    lemma_no_occurrence_concat(a1, nl, um);
    let a2 = a1 + nl;
    assert(a2.last() == '\n');
    lemma_no_occurrence_concat(a2, end_marker(), um);
    let a3 = a2 + end_marker();
    lemma_no_occurrence_concat(a3, seq!['\n', '\n'], um);
    assert(a3 + seq!['\n', '\n'] =~= entry_piece(text));
}

/// What a piece yields once the closing marker is taken out and the white
/// space trimmed: the message, trimmed.
proof fn lemma_piece_text(text: Seq<char>, tail: Seq<char>)
    requires
        storable_update(text),
        all_ws(tail),
        tail.len() < 11,
    ensures
        trim(
            replace_all(seq!['\n'] + text + seq!['\n'] + end_marker() + tail, end_marker(), Seq::empty()),
        ) == trim(text),
{
    lemma_marker_facts();
    let nl = seq!['\n'];
    let em = end_marker();
    lemma_short_absent(nl, em);
    lemma_no_occurrence_concat(nl, text, em);
    let a = nl + text + nl;
    lemma_no_occurrence_concat(nl + text, nl, em);
    lemma_replace_prefix(a, em + tail, em, Seq::empty());
    let b = em + tail;
    assert(starts_with(b, em)) by {
        assert(b.take(em.len() as int) =~= em);
    }
    assert(b.skip(em.len() as int) =~= tail);
    lemma_short_absent(tail, em);
    lemma_replace_absent(tail, em, Seq::empty());
    assert(replace_all(b, em, Seq::empty()) == Seq::<char>::empty() + tail);
    assert(nl + text + nl + em + tail =~= a + b);
    assert(is_ws('\n'));
    assert(a + (Seq::<char>::empty() + tail) =~= nl + text + (nl + tail));
    lemma_trim_ws_around(nl, text, nl + tail);
}

/// The messages gathered from the pieces: none from the first, then the
/// message of each further piece unless it is blank.
proof fn lemma_update_texts_of_pieces(parts: Seq<Seq<char>>, texts: Seq<Seq<char>>)
    requires
        parts.len() == texts.len() + 1,
        trim(replace_all(parts[0], end_marker(), Seq::empty())).len() == 0,
        forall|i: int|
            0 <= i < texts.len() ==> trim(replace_all(#[trigger] parts[i + 1], end_marker(), Seq::empty()))
                == trim(texts[i]),
    ensures
        update_texts(parts) == kept_updates(texts),
    decreases texts.len(),
{
    if texts.len() == 0 {
        assert(parts.drop_last().len() == 0);
        assert(parts.last() == parts[0]);
        assert(update_texts(parts.drop_last()) == Seq::<Seq<char>>::empty());
        assert(update_texts(parts) == update_texts(parts.drop_last()));
    } else {
        let n = texts.len() - 1;
        assert forall|i: int| 0 <= i < texts.drop_last().len() implies trim(
            replace_all(#[trigger] parts.drop_last()[i + 1], end_marker(), Seq::empty()),
        ) == trim(texts.drop_last()[i]) by {
            assert(parts.drop_last()[i + 1] == parts[i + 1]);
            assert(texts.drop_last()[i] == texts[i]);
        }
        lemma_update_texts_of_pieces(parts.drop_last(), texts.drop_last());
        assert(parts.last() == parts[n + 1]);
        assert(texts.last() == texts[n]);
    }
}

/// The channel file written for a chat and its kept messages: the header, then
/// one block per message, in order.
pub open spec fn written_channel_file(chat_name: Seq<char>, texts: Seq<Seq<char>>) -> Seq<char> {
    channel_header_text(chat_name) + channel_entries_text(texts)
}

/// Writes the channel file of a chat and its kept messages.
pub fn channel_file_text(chat_name: &str, texts: &Vec<String>) -> (res: String)
    ensures
        res@ == written_channel_file(chat_name@, texts@.map_values(|t: String| t@)),
{
    let ghost tv = texts@.map_values(|t: String| t@);
    let header = channel_file_header(chat_name);
    let mut out = chars_of(header.as_str());
    let mut i: usize = 0;
    assert(tv.take(0) =~= Seq::<Seq<char>>::empty());
    while i < texts.len()
        invariant
            i <= texts@.len(),
            tv == texts@.map_values(|t: String| t@),
            out@ == channel_header_text(chat_name@) + channel_entries_text(tv.take(i as int)),
        decreases texts.len() - i,
    {
        let entry = channel_file_entry(texts[i].as_str());
        let ec = chars_of(entry.as_str());
        crate::text::append_chars(&mut out, ec.as_slice());
        assert(tv.take(i + 1).drop_last() =~= tv.take(i as int));
        assert(tv.take(i + 1).last() == texts@[i as int]@);
        assert(out@ =~= channel_header_text(chat_name@) + channel_entries_text(tv.take(i + 1)));
        i = i + 1;
    }
    assert(tv.take(i as int) =~= tv);
    string_from_chars(out.as_slice())
}

/// Reading back a channel file (`parse_channel_file`, whose result is
/// `channel_file`) that `channel_file_text` wrote gives the source name and the
/// messages that were written, each trimmed and the blank ones dropped, in order,
/// when the source name is one line and no message holds a carriage return or a
/// marker.
pub proof fn lemma_channel_file_round_trip(chat_name: Seq<char>, texts: Seq<Seq<char>>)
    requires
        no_char(chat_name, '\n'),
        forall|i: int| 0 <= i < texts.len() ==> storable_update(#[trigger] texts[i]),
    ensures
        channel_file(written_channel_file(chat_name, texts)) == (
            trim(chat_name),
            kept_updates(texts),
        ),
{
    lemma_marker_facts();
    let nl = seq!['\n'];
    let sm = source_marker();
    let um = update_marker();
    let em = end_marker();
    let entries = channel_entries_text(texts);
    let l0 = sm + seq![' '] + chat_name;
    let r = nl + entries;
    let content = channel_header_text(chat_name) + entries;
    assert(content =~= l0 + nl + r);
    assert forall|k: int| 0 <= k < l0.len() implies l0[k] != '\n' by {
        if k < 20 {
            assert(l0[k] == sm[k]);
        } else if k > 20 {
            assert(l0[k] == chat_name[k - 21]);
        }
    }
    lemma_lines_cons(l0, r);
    // a carriage return that ends the name ends the line, and goes with it
    let cn = strip_cr(chat_name);
    let l0s = sm + seq![' '] + cn;
    assert(strip_cr(l0) == l0s) by {
        if chat_name.len() > 0 {
            assert(l0.last() == chat_name.last());
            if chat_name.last() == '\r' {
                assert(l0.drop_last() =~= l0s);
            } else {
                assert(l0s =~= l0);
            }
        } else {
            assert(l0s =~= l0);
        }
    }
    assert(trim(cn) == trim(chat_name)) by {
        if chat_name.len() > 0 && chat_name.last() == '\r' {
            assert(all_ws(seq!['\r']));
            assert(all_ws(Seq::<char>::empty()));
            lemma_trim_ws_around(Seq::empty(), cn, seq!['\r']);
            assert(Seq::<char>::empty() + cn + seq!['\r'] =~= chat_name);
        }
    }
    let ls = lines(content);
    assert(ls == seq![l0s] + lines(r));
    assert(ls[0] == l0s);
    assert(l0s.take(20) =~= sm);
    assert(source_line(ls) == Some(0int));
    // the source
    let sp = seq![' '] + cn;
    assert(l0s.skip(20) =~= sp);
    assert(!starts_with(sp, sm)) by {
        if sm.len() <= sp.len() {
            assert(sp.take(20)[0] == ' ');
        }
    }
    assert(strip_repeated(sp, sm) == sp);
    assert(strip_repeated(l0s, sm) == sp);
    assert(all_ws(seq![' ']));
    lemma_trim_ws_around(seq![' '], cn, Seq::empty());
    assert(seq![' '] + cn + Seq::<char>::empty() =~= sp);
    // the lines after the source
    assert(ls.skip(1) =~= lines(r));
    lemma_entries_no_cr(texts);
    assert forall|k: int| 0 <= k < r.len() implies r[k] != '\r' by {
        if k > 0 {
            assert(r[k] == entries[k - 1]);
        }
    }
    if texts.len() > 0 {
        lemma_entry_text(texts.last());
        let e = channel_entry_text(texts.last());
        assert(entries.last() == e.last());
        assert(e.last() == entry_piece(texts.last()).last());
    }
    assert(r.last() == '\n');
    lemma_lines_rejoin(r);
    let rest = join_with(lines(r), nl);
    assert(rest =~= r.drop_last());
    // the pieces between the opening markers
    lemma_entries_join(texts);
    let eps = entry_pieces(texts);
    let n = texts.len();
    assert(eps.len() == n + 1);
    assert(eps.last().len() > 0);
    lemma_join_with_drop_last(eps, um);
    let ps = eps.update(n as int, eps.last().drop_last());
    assert(join_with(ps, um) == rest);
    assert forall|i: int| 0 <= i < ps.len() implies !contains(#[trigger] ps[i], um) by {
        if i == 0 {
            assert(ps[0].len() <= 1);
            lemma_short_absent(ps[0], um);
        } else {
            let t = texts[i - 1];
            assert(eps[i] == entry_piece(t));
            lemma_piece_without_marker(t);
            if i == n {
                assert(ps[i] =~= entry_piece(t).take(entry_piece(t).len() - 1));
                lemma_no_occurrence_prefix(entry_piece(t), um, entry_piece(t).len() - 1);
            }
        }
    }
    assert forall|i: int| 0 <= i < ps.len() - 1 implies (#[trigger] ps[i]).len() > 0 && ps[i].last()
        == '\n' by {
        if i > 0 {
            assert(ps[i] == entry_piece(texts[i - 1]));
        } else {
            assert(ps[0] == nl);
        }
    }
    lemma_split_join(ps, um);
    assert(split_on(join_with(ls.skip(1), "\n"@), um) == ps);
    // the messages
    assert(trim(replace_all(ps[0], em, Seq::empty())).len() == 0) by {
        lemma_short_absent(ps[0], em);
        lemma_replace_absent(ps[0], em, Seq::empty());
        assert(all_ws(ps[0]));
        lemma_trim_ws_around(ps[0], Seq::empty(), Seq::empty());
        assert(ps[0] + Seq::<char>::empty() + Seq::<char>::empty() =~= ps[0]);
    }
    assert forall|i: int| 0 <= i < n implies trim(
        replace_all(#[trigger] ps[i + 1], em, Seq::empty()),
    ) == trim(texts[i]) by {
        let t = texts[i];
        assert(eps[i + 1] == entry_piece(t));
        assert(all_ws(seq!['\n', '\n']));
        assert(all_ws(seq!['\n']));
        if i + 1 == n {
            assert(ps[i + 1] =~= nl + t + nl + em + seq!['\n']);
            lemma_piece_text(t, seq!['\n']);
        } else {
            assert(ps[i + 1] =~= nl + t + nl + em + seq!['\n', '\n']);
            lemma_piece_text(t, seq!['\n', '\n']);
        }
    }
    lemma_update_texts_of_pieces(ps, texts);
}

} // verus!
