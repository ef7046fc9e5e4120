//! Anonymization and stack-trace normalization for error tracking: the
//! built-in anonymization patterns, scrubbing of the OS username, and the
//! collapsing and length limits of stack traces.

use vstd::prelude::*;

use crate::regexes::{escaped, redact, redacted, regex_is_match, Pattern};
use crate::text::{
    blank, decimal, decimal_text, equal_ignoring_case, is_blank, lemma_texts_push, lowered,
    opt_str, opt_text, texts,
};

verus! {

/// Maximum number of stack frames kept per error (extra frames are dropped
/// from the middle).
pub const MAX_STACK_SIZE: usize = 30;

/// Number of stack frames kept at each end of a stack with extra frames.
pub const STACK_END_SIZE: usize = 15;

/// Maximum characters kept per stack frame (truncated with `...`).
pub const MAX_FRAME_SIZE: usize = 300;

/// Maximum characters kept for an error message (truncated with `...`).
pub const MAX_MESSAGE_LENGTH: usize = 1000;

/// A text cut to at most `max_len` characters, the last three of them `...`
/// where something was cut off.
pub open spec fn truncated(value: Seq<char>, max_len: nat) -> Seq<char> {
    if value.len() <= max_len {
        value
    } else if max_len < 3 {
        "..."@
    } else {
        value.take(max_len - 3) + "..."@
    }
}

/// How many times the first frame stands in a row at the start.
pub open spec fn leading_run(frames: Seq<Seq<char>>) -> nat
    decreases frames.len(),
{
    if frames.len() == 0 {
        0
    } else if frames.len() > 1 && frames[1] == frames[0] {
        1 + leading_run(frames.drop_first())
    } else {
        1
    }
}

/// A frame that stood `count` times in a row.
pub open spec fn run_text(frame: Seq<char>, count: nat) -> Seq<char> {
    if count > 1 {
        frame + " (x"@ + decimal_text(count) + ")"@
    } else {
        frame
    }
}

/// The frames with each run of identical frames as a single entry.
pub open spec fn without_runs(frames: Seq<Seq<char>>) -> Seq<Seq<char>>
    decreases frames.len(),
{
    let count = leading_run(frames);
    if frames.len() == 0 {
        Seq::empty()
    } else {
        proof {
            lemma_leading_run(frames);
        }
        seq![run_text(frames[0], count)] + without_runs(frames.skip(count as int))
    }
}

/// How many times `cycle` stands at the start, one time after another.
pub open spec fn leading_repeats(frames: Seq<Seq<char>>, cycle: Seq<Seq<char>>) -> nat
    decreases frames.len(),
{
    if 0 < cycle.len() <= frames.len() && frames.take(cycle.len() as int) == cycle {
        1 + leading_repeats(frames.skip(cycle.len() as int), cycle)
    } else {
        0
    }
}

/// How many times the first `len` frames stand at the start.
pub open spec fn repeats_of(frames: Seq<Seq<char>>, len: nat) -> nat {
    leading_repeats(frames, frames.take(len as int))
}

/// The length, from `from` on, of the shortest cycle that the frames start
/// with two times or more; 0 if they start with none.
pub open spec fn shortest_cycle(frames: Seq<Seq<char>>, from: nat) -> nat
    decreases frames.len() - from,
{
    if from == 0 || from > frames.len() / 2 {
        0
    } else if repeats_of(frames, from) >= 2 {
        from
    } else {
        shortest_cycle(frames, from + 1)
    }
}

/// The entry that stands for the repetitions of a cycle.
pub open spec fn repeated_text(repeats: nat) -> Seq<char> {
    "... (repeated "@ + decimal_text(repeats) + " times)"@
}

/// The frames with each repeated cycle kept once, followed by an entry that
/// says how many times it stood there.
pub open spec fn without_cycles(frames: Seq<Seq<char>>) -> Seq<Seq<char>>
    decreases frames.len(),
{
    let len = shortest_cycle(frames, 1);
    let repeats = repeats_of(frames, len);
    if frames.len() == 0 {
        Seq::empty()
    } else if len > 0 {
        proof {
            lemma_shortest_cycle(frames, 1);
            lemma_leading_repeats(frames, frames.take(len as int));
            assert(repeats * len > 0) by (nonlinear_arith)
                requires
                    repeats >= 2,
                    len > 0,
            ;
        }
        frames.take(len as int).push(repeated_text(repeats)) + without_cycles(
            frames.skip((repeats * len) as int),
        )
    } else {
        seq![frames[0]] + without_cycles(frames.drop_first())
    }
}

/// The entry that stands for the frames beyond the limit.
pub open spec fn more_text(count: nat) -> Seq<char> {
    "... ("@ + decimal_text(count) + " more)"@
}

/// A stack trace as it is reported: runs and cycles collapsed, each frame
/// cut to its limit, and no more than [`MAX_STACK_SIZE`] frames. Extra frames
/// are dropped from the middle, and the last entry says that there were some.
pub open spec fn collapsed(frames: Seq<Seq<char>>) -> Seq<Seq<char>> {
    let entries = without_cycles(without_runs(frames)).map_values(
        |frame: Seq<char>| truncated(frame, MAX_FRAME_SIZE as nat),
    );
    if entries.len() <= MAX_STACK_SIZE {
        entries
    } else {
        (entries.take(STACK_END_SIZE as int) + entries.skip(entries.len() - STACK_END_SIZE)).push(
            more_text((frames.len() - MAX_STACK_SIZE) as nat),
        )
    }
}

/// A run at the start is not empty and not longer than the stack trace.
pub proof fn lemma_leading_run(frames: Seq<Seq<char>>)
    ensures
        leading_run(frames) <= frames.len(),
        frames.len() > 0 ==> leading_run(frames) >= 1,
    decreases frames.len(),
{
    if frames.len() > 1 && frames[1] == frames[0] {
        lemma_leading_run(frames.drop_first());
    }
}

/// The first run is the one whose frames all equal the first and whose next
/// frame does not.
pub proof fn lemma_leading_run_is(frames: Seq<Seq<char>>, count: nat)
    requires
        1 <= count <= frames.len(),
        forall|i: int| 0 <= i < count ==> #[trigger] frames[i] == frames[0],
        count < frames.len() ==> frames[count as int] != frames[0],
    ensures
        leading_run(frames) == count,
    decreases frames.len(),
{
    if count > 1 {
        let rest = frames.drop_first();
        assert(frames[1] == frames[0]);
        assert forall|i: int| 0 <= i < count - 1 implies #[trigger] rest[i] == rest[0] by {
            assert(rest[i] == frames[i + 1]);
        }
        lemma_leading_run_is(rest, (count - 1) as nat);
    }
}

proof fn lemma_without_runs_len(frames: Seq<Seq<char>>)
    ensures
        without_runs(frames).len() <= frames.len(),
    decreases frames.len(),
{
    if frames.len() > 0 {
        lemma_leading_run(frames);
        lemma_without_runs_len(frames.skip(leading_run(frames) as int));
    }
}

/// The repetitions of a cycle at the start lie within the stack trace.
pub proof fn lemma_leading_repeats(frames: Seq<Seq<char>>, cycle: Seq<Seq<char>>)
    ensures
        leading_repeats(frames, cycle) * cycle.len() <= frames.len(),
    decreases frames.len(),
{
    if 0 < cycle.len() <= frames.len() && frames.take(cycle.len() as int) == cycle {
        let rest = frames.skip(cycle.len() as int);
        lemma_leading_repeats(rest, cycle);
        let n = leading_repeats(rest, cycle);
        assert((1 + n) * cycle.len() == cycle.len() + n * cycle.len()) by (nonlinear_arith);
    } else {
        assert(0 * cycle.len() == 0) by (nonlinear_arith);
    }
}

/// A cycle that is found fits at least twice, and repeats.
pub proof fn lemma_shortest_cycle(frames: Seq<Seq<char>>, from: nat)
    requires
        from >= 1,
    ensures
        shortest_cycle(frames, from) > 0 ==> from <= shortest_cycle(frames, from) <= frames.len()
            / 2 && repeats_of(frames, shortest_cycle(frames, from)) >= 2,
    decreases frames.len() - from,
{
    if from <= frames.len() / 2 && repeats_of(frames, from) < 2 {
        lemma_shortest_cycle(frames, from + 1);
    }
}

proof fn lemma_without_cycles_len(frames: Seq<Seq<char>>)
    ensures
        without_cycles(frames).len() <= frames.len(),
    decreases frames.len(),
{
    if frames.len() > 0 {
        let len = shortest_cycle(frames, 1);
        let repeats = repeats_of(frames, len);
        lemma_shortest_cycle(frames, 1);
        if len > 0 {
            lemma_leading_repeats(frames, frames.take(len as int));
            assert(repeats * len >= len + 1) by (nonlinear_arith)
                requires
                    repeats >= 2,
                    len >= 1,
            ;
            lemma_without_cycles_len(frames.skip((repeats * len) as int));
        } else {
            lemma_without_cycles_len(frames.drop_first());
        }
    }
}

/// Collapsing never makes a stack trace longer.
pub proof fn lemma_collapsing_shortens(frames: Seq<Seq<char>>)
    ensures
        without_cycles(without_runs(frames)).len() <= frames.len(),
{
    lemma_without_runs_len(frames);
    lemma_without_cycles_len(without_runs(frames));
}

/// Truncates `message` to [`MAX_MESSAGE_LENGTH`] characters.
pub fn truncate_message(message: &str) -> (r: String)
    ensures
        r@ == truncated(message@, MAX_MESSAGE_LENGTH as nat),
        r@.len() <= MAX_MESSAGE_LENGTH,
{
    truncate_chars(message, MAX_MESSAGE_LENGTH)
}

/// Truncates a single stack frame to [`MAX_FRAME_SIZE`] characters.
pub fn truncate_frame(frame: &str) -> (r: String)
    ensures
        r@ == truncated(frame@, MAX_FRAME_SIZE as nat),
        r@.len() <= MAX_FRAME_SIZE,
{
    truncate_chars(frame, MAX_FRAME_SIZE)
}

/// Truncates `value` to `max_len` characters, the last three of them `...`
/// where something is cut off.
pub fn truncate_chars(value: &str, max_len: usize) -> (r: String)
    ensures
        r@ == truncated(value@, max_len as nat),
        max_len >= 3 ==> r@.len() <= max_len,
{
    proof {
        reveal_strlit("...");
    }
    if value.unicode_len() <= max_len {
        return value.to_owned();
    }
    let kept: usize = if max_len < 3 {
        0
    } else {
        max_len - 3
    };
    let mut r = value.substring_char(0, kept).to_owned();
    r.append("...");
    assert(value@.subrange(0, kept as int) =~= value@.take(kept as int));
    assert(r@ =~= truncated(value@, max_len as nat));
    r
}

/// Collapses immediately repeated identical frames into a single annotated
/// entry: `["a", "a", "a", "b"]` becomes `["a (x3)", "b"]`.
pub fn collapse_consecutive_duplicates(frames: &Vec<String>) -> (r: Vec<String>)
    ensures
        texts(r@) == without_runs(texts(frames@)),
{
    let ghost all = texts(frames@);
    let mut r: Vec<String> = Vec::new();
    let mut i: usize = 0;
    assert(all.skip(0) =~= all);
    assert(texts(r@) + without_runs(all) =~= without_runs(all));
    while i < frames.len()
        invariant
            i <= frames@.len(),
            all == texts(frames@),
            texts(r@) + without_runs(all.skip(i as int)) == without_runs(all),
        decreases frames@.len() - i,
    {
        let ghost rest = all.skip(i as int);
        let mut count: usize = 1;
        while count < frames.len() - i && frames[i + count] == frames[i]
            invariant
                1 <= count <= frames@.len() - i,
                all == texts(frames@),
                rest == all.skip(i as int),
                forall|k: int| 0 <= k < count ==> #[trigger] rest[k] == rest[0],
            decreases frames@.len() - count,
        {
            count += 1;
        }
        proof {
            lemma_leading_run_is(rest, count as nat);
        }
        let mut entry = frames[i].clone();
        if count > 1 {
            entry.append(" (x");
            entry.append(decimal(count as u64).as_str());
            entry.append(")");
        }
        assert(entry@ =~= run_text(rest[0], count as nat));
        let ghost before = texts(r@);
        r.push(entry);
        proof {
            assert(rest.skip(count as int) =~= all.skip(i + count));
            assert(texts(r@) + without_runs(all.skip(i + count)) =~= before + without_runs(rest));
        }
        i += count;
    }
    assert(texts(r@) =~= without_runs(all));
    r
}

/// Whether the `n` frames from `a` on are the `n` frames from `b` on.
fn same_frames(frames: &Vec<String>, a: usize, b: usize, n: usize) -> (r: bool)
    requires
        a + n <= frames@.len(),
        b + n <= frames@.len(),
    ensures
        r == (texts(frames@).subrange(a as int, a + n) == texts(frames@).subrange(b as int, b + n)),
{
    let ghost first = texts(frames@).subrange(a as int, a + n);
    let ghost second = texts(frames@).subrange(b as int, b + n);
    let total: usize = frames.len();
    let mut k: usize = 0;
    while k < n
        invariant
            k <= n,
            total == frames@.len(),
            a + n <= total,
            b + n <= total,
            first == texts(frames@).subrange(a as int, a + n),
            second == texts(frames@).subrange(b as int, b + n),
            forall|j: int| 0 <= j < k ==> first[j] == second[j],
        decreases n - k,
    {
        if frames[a + k] != frames[b + k] {
            assert(first[k as int] != second[k as int]);
            return false;
        }
        k += 1;
    }
    assert(first =~= second);
    true
}

/// How many times the `len` frames from `start` on stand there, one time
/// after another.
fn count_repeats(frames: &Vec<String>, start: usize, len: usize) -> (repeats: usize)
    requires
        0 < len <= frames@.len() - start,
        start <= frames@.len(),
    ensures
        repeats == repeats_of(texts(frames@).skip(start as int), len as nat),
        repeats * len <= frames@.len() - start,
        repeats >= 1,
{
    let ghost rest = texts(frames@).skip(start as int);
    let ghost cycle = rest.take(len as int);
    let total: usize = frames.len();
    let mut repeats: usize = 1;
    let mut end: usize = start + len;
    proof {
        assert(rest.skip(len as int) =~= texts(frames@).skip(end as int));
        assert(1 * len == len) by (nonlinear_arith);
    }
    while len <= total - end && same_frames(frames, end, start, len)
        invariant
            total == frames@.len(),
            0 < len <= frames@.len() - start,
            start + len <= end <= frames@.len(),
            1 <= repeats <= frames@.len(),
            repeats * len == end - start,
            rest == texts(frames@).skip(start as int),
            cycle == rest.take(len as int),
            leading_repeats(rest, cycle) == repeats + leading_repeats(
                texts(frames@).skip(end as int),
                cycle,
            ),
        decreases frames@.len() - end,
    {
        proof {
            let tail = texts(frames@).skip(end as int);
            assert(tail.take(len as int) =~= texts(frames@).subrange(end as int, end + len));
            assert(cycle =~= texts(frames@).subrange(start as int, start + len));
            assert(tail.skip(len as int) =~= texts(frames@).skip(end + len));
            assert((repeats + 1) * len == repeats * len + len) by (nonlinear_arith);
            assert(repeats + 1 <= (repeats + 1) * len) by (nonlinear_arith)
                requires
                    len >= 1,
            ;
        }
        repeats += 1;
        end += len;
    }
    proof {
        let tail = texts(frames@).skip(end as int);
        if len <= tail.len() && tail.take(len as int) == cycle {
            assert(tail.take(len as int) =~= texts(frames@).subrange(end as int, end + len));
            assert(cycle =~= texts(frames@).subrange(start as int, start + len));
        }
    }
    repeats
}

/// The length of the shortest cycle that the frames from `start` on begin
/// with two times or more; 0 if there is none.
fn find_cycle(frames: &Vec<String>, start: usize) -> (len: usize)
    requires
        start <= frames@.len(),
    ensures
        len == shortest_cycle(texts(frames@).skip(start as int), 1),
{
    let ghost rest = texts(frames@).skip(start as int);
    let total: usize = frames.len();
    let longest: usize = (total - start) / 2;
    let mut len: usize = 1;
    while len <= longest
        invariant
            total == frames@.len(),
            start <= frames@.len(),
            longest == (frames@.len() - start) / 2,
            1 <= len <= longest + 1,
            rest == texts(frames@).skip(start as int),
            shortest_cycle(rest, 1) == shortest_cycle(rest, len as nat),
        decreases longest + 1 - len,
    {
        if count_repeats(frames, start, len) >= 2 {
            return len;
        }
        len += 1;
    }
    0
}

/// Detects a repeating cycle of frames (such as recursive calls) and keeps
/// it once, followed by an annotated marker. A cycle counts from its second
/// full repetition on.
pub fn collapse_repeating_pattern(frames: &Vec<String>) -> (r: Vec<String>)
    ensures
        texts(r@) == without_cycles(texts(frames@)),
{
    let ghost all = texts(frames@);
    let mut r: Vec<String> = Vec::new();
    let mut i: usize = 0;
    assert(all.skip(0) =~= all);
    assert(texts(r@) + without_cycles(all) =~= without_cycles(all));
    while i < frames.len()
        invariant
            i <= frames@.len(),
            all == texts(frames@),
            texts(r@) + without_cycles(all.skip(i as int)) == without_cycles(all),
        decreases frames@.len() - i,
    {
        let ghost rest = all.skip(i as int);
        let ghost before = texts(r@);
        let len = find_cycle(frames, i);
        if len > 0 {
            proof {
                lemma_shortest_cycle(rest, 1);
            }
            let repeats = count_repeats(frames, i, len);
            let total: usize = frames.len();
            let mut k: usize = 0;
            while k < len
                invariant
                    total == frames@.len(),
                    k <= len <= total - i,
                    i <= frames@.len(),
                    all == texts(frames@),
                    rest == all.skip(i as int),
                    texts(r@) == before + rest.take(k as int),
                decreases len - k,
            {
                let frame = frames[i + k].clone();
                proof {
                    assert(rest.take(k + 1) =~= rest.take(k as int).push(frame@));
                    lemma_texts_push(r@, frame);
                }
                r.push(frame);
                k += 1;
                assert(texts(r@) =~= before + rest.take(k as int));
            }
            let mut marker = String::new();
            marker.append("... (repeated ");
            marker.append(decimal(repeats as u64).as_str());
            marker.append(" times)");
            let ghost marker_text = repeated_text(repeats as nat);
            proof {
                assert(marker@ =~= marker_text);
                lemma_texts_push(r@, marker);
            }
            r.push(marker);
            proof {
                let n = repeats * len;
                assert(n > 0) by (nonlinear_arith)
                    requires
                        repeats >= 2,
                        len > 0,
                        n == repeats * len,
                ;
                assert(rest.skip(n) =~= all.skip(i + n));
                assert(texts(r@) =~= before + rest.take(len as int).push(marker_text));
                assert(texts(r@) + without_cycles(all.skip(i + n)) =~= before + without_cycles(
                    rest,
                ));
            }
            i += repeats * len;
        } else {
            r.push(frames[i].clone());
            proof {
                assert(rest.drop_first() =~= all.skip(i + 1));
                assert(texts(r@) + without_cycles(all.skip(i + 1)) =~= before + without_cycles(
                    rest,
                ));
            }
            i += 1;
        }
    }
    assert(texts(r@) =~= without_cycles(all));
    r
}

/// Appends the entries from `start` to `end`, each cut to its limit.
fn append_cut(r: &mut Vec<String>, entries: &Vec<String>, start: usize, end: usize)
    requires
        start <= end <= entries@.len(),
    ensures
        texts(final(r)@) == texts(old(r)@) + texts(entries@).map_values(
            |frame: Seq<char>| truncated(frame, MAX_FRAME_SIZE as nat),
        ).subrange(start as int, end as int),
{
    let ghost cut = texts(entries@).map_values(
        |frame: Seq<char>| truncated(frame, MAX_FRAME_SIZE as nat),
    );
    let mut i: usize = start;
    assert(texts(r@) =~= texts(old(r)@) + cut.subrange(start as int, start as int));
    while i < end
        invariant
            start <= i <= end <= entries@.len(),
            cut == texts(entries@).map_values(
                |frame: Seq<char>| truncated(frame, MAX_FRAME_SIZE as nat),
            ),
            texts(r@) == texts(old(r)@) + cut.subrange(start as int, i as int),
        decreases end - i,
    {
        let frame = truncate_frame(entries[i].as_str());
        proof {
            lemma_texts_push(r@, frame);
            assert(cut.subrange(start as int, i + 1) =~= cut.subrange(start as int, i as int).push(
                frame@,
            ));
        }
        r.push(frame);
        i += 1;
        assert(texts(r@) =~= texts(old(r)@) + cut.subrange(start as int, i as int));
    }
}

/// Normalizes a raw stack trace: collapses consecutive duplicate frames,
/// then repeating cycles, then truncates each frame and caps the total frame
/// count. Extra frames are dropped from the middle.
pub fn collapse_stack(frames: &Vec<String>) -> (r: Vec<String>)
    ensures
        texts(r@) == collapsed(texts(frames@)),
{
    let deduped = collapse_consecutive_duplicates(frames);
    let entries = collapse_repeating_pattern(&deduped);
    let total: usize = entries.len();
    let mut r: Vec<String> = Vec::new();
    if total <= MAX_STACK_SIZE {
        append_cut(&mut r, &entries, 0, total);
    } else {
        append_cut(&mut r, &entries, 0, STACK_END_SIZE);
        append_cut(&mut r, &entries, total - STACK_END_SIZE, total);
        proof {
            lemma_collapsing_shortens(texts(frames@));
        }
        let mut more = String::new();
        more.append("... (");
        more.append(decimal((frames.len() - MAX_STACK_SIZE) as u64).as_str());
        more.append(" more)");
        proof {
            assert(more@ =~= more_text((frames@.len() - MAX_STACK_SIZE) as nat));
            lemma_texts_push(r@, more);
        }
        r.push(more);
    }
    assert(texts(r@) =~= collapsed(texts(frames@)));
    r
}

/// Both ends of a stack trace are always reported: the first
/// [`STACK_END_SIZE`] entries stand first, and the last ones stand last, or
/// right before the entry for the frames that were dropped between them.
pub proof fn law_both_ends_are_kept(frames: Seq<Seq<char>>)
    ensures
        ({
            let entries = without_cycles(without_runs(frames)).map_values(
                |frame: Seq<char>| truncated(frame, MAX_FRAME_SIZE as nat),
            );
            let r = collapsed(frames);
            let kept = if entries.len() > MAX_STACK_SIZE {
                r.drop_last()
            } else {
                r
            };
            &&& forall|i: int|
                0 <= i < STACK_END_SIZE && i < entries.len() ==> kept[i] == #[trigger] entries[i]
            &&& forall|i: int|
                entries.len() - STACK_END_SIZE <= i < entries.len() && 0 <= i ==> kept[i
                    - entries.len() + kept.len()] == #[trigger] entries[i]
            &&& entries.len() > MAX_STACK_SIZE ==> r.last() == more_text(
                (frames.len() - MAX_STACK_SIZE) as nat,
            )
        }),
{
}

/// A reported stack trace has at most [`MAX_STACK_SIZE`] frames, and one
/// entry more where frames were left out; it is never longer than the
/// original. Each frame it keeps has at most [`MAX_FRAME_SIZE`] characters.
pub proof fn law_collapsed_is_bounded(frames: Seq<Seq<char>>)
    ensures
        collapsed(frames).len() <= MAX_STACK_SIZE + 1,
        collapsed(frames).len() <= frames.len(),
        forall|i: int|
            0 <= i < collapsed(frames).len() && i < MAX_STACK_SIZE ==> (#[trigger] collapsed(
                frames,
            )[i]).len() <= MAX_FRAME_SIZE,
{
    reveal_strlit("...");
    lemma_collapsing_shortens(frames);
}

/// A stack trace without repeated frames, within both limits, is reported as
/// it is.
pub proof fn law_short_unique_stack_is_untouched(frames: Seq<Seq<char>>)
    requires
        frames.no_duplicates(),
        frames.len() <= MAX_STACK_SIZE,
        forall|i: int| 0 <= i < frames.len() ==> (#[trigger] frames[i]).len() <= MAX_FRAME_SIZE,
    ensures
        collapsed(frames) == frames,
{
    lemma_unique_without_runs(frames);
    lemma_unique_without_cycles(frames);
    assert(collapsed(frames) =~= frames);
}

/// A stack trace of one frame is reported as that frame, cut to its limit.
pub proof fn lemma_one_frame(frame: Seq<char>)
    ensures
        collapsed(seq![frame]) == seq![truncated(frame, MAX_FRAME_SIZE as nat)],
{
    lemma_unique_without_runs(seq![frame]);
    lemma_unique_without_cycles(seq![frame]);
    assert(collapsed(seq![frame]) =~= seq![truncated(frame, MAX_FRAME_SIZE as nat)]);
}

proof fn lemma_unique_without_runs(frames: Seq<Seq<char>>)
    requires
        frames.no_duplicates(),
    ensures
        without_runs(frames) == frames,
    decreases frames.len(),
{
    if frames.len() > 0 {
        lemma_leading_run_is(frames, 1);
        let rest = frames.skip(1);
        assert(rest.no_duplicates());
        lemma_unique_without_runs(rest);
        assert(without_runs(frames) =~= frames);
    }
}

proof fn lemma_unique_has_no_cycle(frames: Seq<Seq<char>>, from: nat)
    requires
        frames.no_duplicates(),
        from >= 1,
    ensures
        shortest_cycle(frames, from) == 0,
    decreases frames.len() - from,
{
    if from <= frames.len() / 2 {
        let cycle = frames.take(from as int);
        let rest = frames.skip(from as int);
        if repeats_of(frames, from) >= 2 {
            assert(leading_repeats(rest, cycle) >= 1);
            assert(rest.take(from as int)[0] == cycle[0]);
            assert(frames[from as int] == frames[0]);
        }
        lemma_unique_has_no_cycle(frames, from + 1);
    }
}

proof fn lemma_unique_without_cycles(frames: Seq<Seq<char>>)
    requires
        frames.no_duplicates(),
    ensures
        without_cycles(frames) == frames,
    decreases frames.len(),
{
    if frames.len() > 0 {
        lemma_unique_has_no_cycle(frames, 1);
        let rest = frames.drop_first();
        assert(rest.no_duplicates());
        lemma_unique_without_cycles(rest);
        assert(without_cycles(frames) =~= frames);
    }
}

/// Matches an IPv4 address.
pub const IPV4_PATTERN: &'static str =
    r"\b(?:(?:25[0-5]|2[0-4]\d|1?\d?\d)\.){3}(?:25[0-5]|2[0-4]\d|1?\d?\d)\b";

/// Matches an IPv6 address written out in full, together with the character
/// before and the character after it.
pub const IPV6_PATTERN: &'static str =
    r"(^|[^0-9a-fA-F:])(?:[0-9a-fA-F]{1,4}:){7}[0-9a-fA-F]{1,4}($|[^0-9a-fA-F:])";

/// Matches a home directory; its first group is what stands before the
/// username.
pub const HOME_PATH_PATTERN: &'static str = r"(/home/|/Users/|C:\\Users\\)[^/\\\s]+";

/// Matches the address of a Discord webhook.
pub const DISCORD_WEBHOOK_PATTERN: &'static str =
    r"https://discord(?:app)?\.com/api/webhooks/\d+/[\w-]+";

/// Matches a `password=` attribute; its first group is the key.
pub const PASSWORD_ATTRIBUTE_PATTERN: &'static str = r"(?i)(password=)[^&;\s]+";

/// A text without IPv6 addresses. A match takes the characters on both sides
/// of the address, so of two addresses with one character between them the
/// second is only found by a second pass.
pub open spec fn without_ipv6(text: Seq<char>) -> Seq<char> {
    redacted(
        IPV6_PATTERN@,
        redacted(IPV6_PATTERN@, text, "${1}[ipv6]${2}"@),
        "${1}[ipv6]${2}"@,
    )
}

/// A text without the values of `password=` attributes.
pub open spec fn without_passwords(text: Seq<char>) -> Seq<char> {
    redacted(PASSWORD_ATTRIBUTE_PATTERN@, text, "${1}[password]"@)
}

/// A text after the built-in patterns.
pub open spec fn without_defaults(text: Seq<char>) -> Seq<char> {
    let no_ipv6 = without_ipv6(text);
    let no_ipv4 = redacted(IPV4_PATTERN@, no_ipv6, "[ipv4]"@);
    let no_home = redacted(HOME_PATH_PATTERN@, no_ipv4, "${1}[home]"@);
    let no_webhook = redacted(DISCORD_WEBHOOK_PATTERN@, no_home, "[discord_webhook]"@);
    without_passwords(no_webhook)
}

/// The patterns and replacements as texts.
pub open spec fn rule_texts(rules: Seq<(Pattern, &str)>) -> Seq<(Seq<char>, Seq<char>)> {
    Seq::new(rules.len(), |i: int| (rules[i].0@, rules[i].1@))
}

/// A text after the given patterns, one after another.
pub open spec fn without_extras(text: Seq<char>, rules: Seq<(Seq<char>, Seq<char>)>) -> Seq<char>
    decreases rules.len(),
{
    if rules.len() == 0 {
        text
    } else {
        let rule = rules.last();
        redacted(rule.0, without_extras(text, rules.drop_last()), rule.1)
    }
}

/// Whether the username is generic enough not to need anonymizing.
pub open spec fn is_generic_username(username: Seq<char>) -> bool {
    let name = lowered(username);
    ||| name == lowered("root"@)
    ||| name == lowered("ubuntu"@)
    ||| name == lowered("server"@)
    ||| name == lowered("ec2-user"@)
    ||| name == lowered("admin"@)
    ||| name == lowered("user"@)
}

/// The pattern that matches a username in any letter case.
pub open spec fn username_pattern(username: Seq<char>) -> Seq<char> {
    "(?i)"@ + escaped(username)
}

/// Whether the username is one to scrub: not empty and not generic.
pub open spec fn is_scrubbed(username: Option<Seq<char>>) -> bool {
    username is Some && username->0.len() > 0 && !is_generic_username(username->0)
}

/// A text without the username.
pub open spec fn without_username(text: Seq<char>, username: Option<Seq<char>>) -> Seq<char> {
    if is_scrubbed(username) {
        redacted(username_pattern(username->0), text, "[user]"@)
    } else {
        text
    }
}

/// A text as it is reported: built-in patterns first, then the given ones,
/// then the username.
pub open spec fn anonymized(
    text: Seq<char>,
    rules: Seq<(Seq<char>, Seq<char>)>,
    username: Option<Seq<char>>,
) -> Seq<char> {
    without_username(without_extras(without_defaults(text), rules), username)
}

/// Whether a built-in pattern, a given one, or the username matches.
pub open spec fn has_sensitive_match(
    text: Seq<char>,
    rules: Seq<(Seq<char>, Seq<char>)>,
    username: Option<Seq<char>>,
) -> bool {
    ||| regex_is_match(IPV6_PATTERN@, text)
    ||| regex_is_match(IPV4_PATTERN@, text)
    ||| regex_is_match(HOME_PATH_PATTERN@, text)
    ||| regex_is_match(DISCORD_WEBHOOK_PATTERN@, text)
    ||| regex_is_match(PASSWORD_ATTRIBUTE_PATTERN@, text)
    ||| exists|i: int| 0 <= i < rules.len() && regex_is_match((#[trigger] rules[i]).0, text)
    ||| is_scrubbed(username) && regex_is_match(username_pattern(username->0), text)
}

/// Redacts IPv6 addresses: each becomes `[ipv6]`, and the characters on
/// both sides of it stay.
pub fn redact_ipv6(text: &str) -> (r: String)
    ensures
        r@ == without_ipv6(text@),
        !regex_is_match(IPV6_PATTERN@, text@) ==> r@ == text@,
{
    let once = redact(IPV6_PATTERN, text, "${1}[ipv6]${2}");
    redact(IPV6_PATTERN, once.as_str(), "${1}[ipv6]${2}")
}

/// Redacts the value of every `password=` attribute, and keeps the key.
pub fn redact_password_attribute(text: &str) -> (r: String)
    ensures
        r@ == without_passwords(text@),
        !regex_is_match(PASSWORD_ATTRIBUTE_PATTERN@, text@) ==> r@ == text@,
{
    redact(PASSWORD_ATTRIBUTE_PATTERN, text, "${1}[password]")
}

/// Applies the built-in patterns: addresses, home directories, webhooks and
/// passwords.
fn redact_defaults(text: &str) -> (r: String)
    ensures
        r@ == without_defaults(text@),
        !has_sensitive_match(text@, Seq::empty(), None) ==> r@ == text@,
{
    let no_ipv6 = redact_ipv6(text);
    let no_ipv4 = redact(IPV4_PATTERN, no_ipv6.as_str(), "[ipv4]");
    let no_home = redact(HOME_PATH_PATTERN, no_ipv4.as_str(), "${1}[home]");
    let no_webhook = redact(DISCORD_WEBHOOK_PATTERN, no_home.as_str(), "[discord_webhook]");
    redact_password_attribute(no_webhook.as_str())
}

/// Replaces the username, in any letter case, with `[user]`, unless it is
/// unknown, empty or a generic one.
pub fn anonymize_username(text: &str, username: Option<&str>) -> (r: String)
    ensures
        r@ == without_username(text@, opt_str(username)),
        is_scrubbed(opt_str(username)) && regex_is_match(
            username_pattern(opt_str(username)->0),
            text@,
        ) || r@ == text@,
{
    match username {
        Some(name) => {
            if name.unicode_len() == 0 || generic_username(name) {
                return text.to_owned();
            }
            let mut pattern = "(?i)".to_owned();
            pattern.append(regex::escape(name).as_str());
            redact(pattern.as_str(), text, "[user]")
        },
        None => text.to_owned(),
    }
}

/// Whether the username is on the list of generic ones, in any letter case.
fn generic_username(name: &str) -> (r: bool)
    ensures
        r == is_generic_username(name@),
{
    equal_ignoring_case(name, "root") || equal_ignoring_case(name, "ubuntu")
        || equal_ignoring_case(name, "server") || equal_ignoring_case(name, "ec2-user")
        || equal_ignoring_case(name, "admin") || equal_ignoring_case(name, "user")
}

/// The current OS username, out of the variables `USER` and `USERNAME`:
/// the first that is set, unless it is blank.
pub fn current_username(user: Option<String>, username: Option<String>) -> (r: Option<String>)
    ensures
        opt_text(r) == (match (if user is Some {
            user
        } else {
            username
        }) {
            Some(name) if !is_blank(name@) => Some(name@),
            _ => None,
        }),
{
    let found = match user {
        Some(name) => Some(name),
        None => username,
    };
    match found {
        Some(name) => if blank(name.as_str()) {
            None
        } else {
            Some(name)
        },
        None => None,
    }
}

/// Anonymizes a text: applies the built-in patterns first, then the given
/// ones, then scrubs the username. A text that none of them matches stays
/// as it is.
pub fn anonymize(text: &str, extra_patterns: &[(Pattern, &str)], username: Option<&str>) -> (r:
    String)
    ensures
        r@ == anonymized(text@, rule_texts(extra_patterns@), opt_str(username)),
        !has_sensitive_match(text@, rule_texts(extra_patterns@), opt_str(username)) ==> r@
            == text@,
{
    let ghost rules = rule_texts(extra_patterns@);
    let ghost matched = has_sensitive_match(text@, rules, opt_str(username));
    let mut r = redact_defaults(text);
    let mut i: usize = 0;
    assert(rules.take(0) =~= Seq::empty());
    while i < extra_patterns.len()
        invariant
            i <= extra_patterns@.len(),
            rules == rule_texts(extra_patterns@),
            matched == has_sensitive_match(text@, rules, opt_str(username)),
            r@ == without_extras(without_defaults(text@), rules.take(i as int)),
            !matched ==> r@ == text@,
        decreases extra_patterns@.len() - i,
    {
        let rule = &extra_patterns[i];
        proof {
            assert(rules.take(i + 1).drop_last() =~= rules.take(i as int));
            assert(rules[i as int] == (rule.0@, rule.1@));
        }
        r = redact(rule.0.as_str(), r.as_str(), rule.1);
        i += 1;
    }
    assert(rules.take(i as int) =~= rules);
    anonymize_username(r.as_str(), username)
}

} // verus!
