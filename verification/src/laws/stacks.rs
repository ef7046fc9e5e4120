//! Laws of stack traces: truncation, runs, cycles, and the cap.

use vstd::prelude::*;

use crate::error_tracking::helper::{
    collapse_consecutive_duplicates, collapse_repeating_pattern, collapse_stack, collapsed,
    leading_repeats, lemma_collapsing_shortens, lemma_leading_run_is, repeats_of, shortest_cycle,
    truncate_chars, truncate_frame, truncate_message, truncated, without_cycles, without_runs,
};
use crate::text::{decimal_text, texts};

verus! {

/// A text that fits is kept as it is. Of one that does not, the start is
/// kept, followed by three dots, and the result has exactly the length that
/// is allowed.
pub proof fn law_truncation(value: &str, max_len: usize, r: String)
    requires
        call_ensures(truncate_chars, (value, max_len), r),
    ensures
        value@.len() <= max_len ==> r@ == value@,
        value@.len() > max_len >= 3 ==> r@.len() == max_len && forall|i: int|
            0 <= i < max_len - 3 ==> r@[i] == value@[i],
        value@.len() > max_len >= 3 ==> r@[max_len - 3] == '.' && r@[max_len - 2] == '.' && r@[
        max_len - 1] == '.',
        value@.len() > max_len && max_len < 3 ==> r@ == seq!['.', '.', '.'],
{
    reveal_strlit("...");
    assert("..."@ =~= seq!['.', '.', '.']);
}

/// Messages are cut to 1000 characters, and frames to 300.
pub proof fn law_limits(
    value: &str,
    message: String,
    frame: String,
    to_1000: String,
    to_300: String,
)
    requires
        call_ensures(truncate_message, (value,), message),
        call_ensures(truncate_frame, (value,), frame),
        call_ensures(truncate_chars, (value, 1000), to_1000),
        call_ensures(truncate_chars, (value, 300), to_300),
    ensures
        message@ == to_1000@,
        frame@ == to_300@,
{
}

/// Whether the first `count` frames are all the same, and the next is not.
pub open spec fn starts_with_run(frames: Seq<Seq<char>>, count: int) -> bool {
    &&& 1 <= count <= frames.len()
    &&& forall|i: int| 0 <= i < count ==> #[trigger] frames[i] == frames[0]
    &&& count < frames.len() ==> frames[count] != frames[0]
}

/// A run at the start becomes one entry, with the number of its frames
/// unless that is one; what follows it is collapsed on its own.
pub proof fn law_run_becomes_one_entry(frames: Seq<Seq<char>>, count: int)
    requires
        starts_with_run(frames, count),
    ensures
        without_runs(frames).len() > 0,
        count == 1 ==> without_runs(frames)[0] == frames[0],
        count > 1 ==> without_runs(frames)[0] == frames[0] + " (x"@ + decimal_text(count as nat)
            + ")"@,
        without_runs(frames).skip(1) == without_runs(frames.skip(count)),
        without_runs(Seq::<Seq<char>>::empty()) == Seq::<Seq<char>>::empty(),
{
    lemma_leading_run_is(frames, count as nat);
    assert(without_runs(frames).skip(1) =~= without_runs(frames.skip(count)));
}

/// Frames of which no two neighbours are the same have no runs.
pub proof fn law_no_runs_no_change(frames: Seq<Seq<char>>)
    requires
        forall|i: int| 0 <= i < frames.len() - 1 ==> #[trigger] frames[i] != frames[i + 1],
    ensures
        without_runs(frames) == frames,
    decreases frames.len(),
{
    if frames.len() > 0 {
        if frames.len() > 1 {
            assert(frames[0] != frames[0int + 1]);
        }
        law_run_becomes_one_entry(frames, 1);
        let rest = frames.skip(1);
        assert forall|i: int| 0 <= i < rest.len() - 1 implies #[trigger] rest[i] != rest[i + 1] by {
            assert(frames[i + 1] != frames[i + 1 + 1]);
        }
        law_no_runs_no_change(rest);
        assert(without_runs(frames) =~= seq![without_runs(frames)[0]] + without_runs(frames).skip(
            1,
        ));
        assert(without_runs(frames) =~= frames);
    }
}

/// Whether the first `len` frames stand `count` times in a row at the start.
pub open spec fn stands(frames: Seq<Seq<char>>, len: int, count: int) -> bool {
    &&& len >= 1
    &&& count >= 1
    &&& count * len <= frames.len()
    &&& forall|i: int| 0 <= i < (count - 1) * len ==> #[trigger] frames[i] == frames[i + len]
}

/// Whether `cycle` stands `count` times in a row at the start.
spec fn starts_with(frames: Seq<Seq<char>>, cycle: Seq<Seq<char>>, count: int) -> bool {
    &&& count * cycle.len() <= frames.len()
    &&& forall|i: int|
        0 <= i < count * cycle.len() ==> #[trigger] frames[i] == if i < cycle.len() {
            cycle[i]
        } else {
            frames[i - cycle.len()]
        }
}

proof fn lemma_starts_with(frames: Seq<Seq<char>>, cycle: Seq<Seq<char>>, count: int)
    requires
        cycle.len() > 0,
        count >= 1,
    ensures
        starts_with(frames, cycle, count) <==> leading_repeats(frames, cycle) >= count,
    decreases count,
{
    let n = cycle.len() as int;
    let rest = frames.skip(n);
    assert(count * n == (count - 1) * n + n) by (nonlinear_arith);
    assert((count - 1) * n >= 0) by (nonlinear_arith)
        requires
            count >= 1,
            n > 0,
    ;
    if count > 1 {
        lemma_starts_with(rest, cycle, count - 1);
    }
    if starts_with(frames, cycle, count) {
        assert(frames.take(n) =~= cycle);
        if count > 1 {
            assert forall|i: int| 0 <= i < (count - 1) * n implies #[trigger] rest[i] == if i < n {
                cycle[i]
            } else {
                rest[i - n]
            } by {
                assert(rest[i] == frames[i + n]);
                assert(frames[i + n] == frames[i]);
                if i >= n {
                    assert(rest[i - n] == frames[i]);
                }
            }
            assert(starts_with(rest, cycle, count - 1));
        }
    }
    if leading_repeats(frames, cycle) >= count {
        assert(frames.take(n) == cycle);
        assert forall|i: int| 0 <= i < count * n implies #[trigger] frames[i] == if i < n {
            cycle[i]
        } else {
            frames[i - n]
        } by {
            if i < n {
                assert(frames.take(n)[i] == cycle[i]);
            } else {
                assert(starts_with(rest, cycle, count - 1));
                assert(rest[i - n] == frames[i]);
                if i - n < n {
                    assert(frames.take(n)[i - n] == cycle[i - n]);
                } else {
                    assert(rest[i - n - n] == frames[i - n]);
                }
            }
        }
    }
}

proof fn lemma_stands(frames: Seq<Seq<char>>, len: int, count: int)
    requires
        1 <= len <= frames.len(),
        count >= 1,
    ensures
        stands(frames, len, count) <==> repeats_of(frames, len as nat) >= count,
{
    let cycle = frames.take(len);
    lemma_starts_with(frames, cycle, count);
    assert(count * len == (count - 1) * len + len) by (nonlinear_arith);
    if stands(frames, len, count) {
        assert forall|i: int| 0 <= i < count * len implies #[trigger] frames[i] == if i < len {
            cycle[i]
        } else {
            frames[i - len]
        } by {
            if i >= len {
                assert(frames[i - len] == frames[i - len + len]);
            }
        }
        assert(starts_with(frames, cycle, count));
    }
    if starts_with(frames, cycle, count) {
        assert forall|i: int| 0 <= i < (count - 1) * len implies #[trigger] frames[i] == frames[i
            + len] by {
            assert(frames[i + len] == frames[i + len - len]);
        }
    }
}

/// A cycle stands at least twice only if two of it fit.
proof fn lemma_stands_twice(frames: Seq<Seq<char>>, len: int)
    ensures
        stands(frames, len, 2) ==> 1 <= len <= frames.len() / 2,
{
    assert(2 * len <= frames.len() ==> len <= frames.len() / 2);
}

proof fn lemma_shortest(frames: Seq<Seq<char>>, from: int, len: int)
    requires
        1 <= from <= len,
        stands(frames, len, 2),
        forall|l: int| from <= l < len ==> !stands(frames, l, 2),
    ensures
        shortest_cycle(frames, from as nat) == len,
    decreases len - from,
{
    lemma_stands_twice(frames, len);
    lemma_stands(frames, from, 2);
    if from < len {
        assert(!stands(frames, from, 2));
        lemma_shortest(frames, from + 1, len);
    }
}

proof fn lemma_none(frames: Seq<Seq<char>>, from: int)
    requires
        1 <= from,
        forall|l: int| from <= l ==> !stands(frames, l, 2),
    ensures
        shortest_cycle(frames, from as nat) == 0,
    decreases frames.len() - from,
{
    if from <= frames.len() / 2 {
        assert(!stands(frames, from, 2));
        lemma_stands(frames, from, 2);
        lemma_none(frames, from + 1);
    }
}

/// A cycle of any length that stands twice or more at the start is kept
/// once, followed by an entry that says how many times it stood there; of
/// several cycles the shortest counts. What follows is collapsed on its own.
pub proof fn law_cycle_is_kept_once(frames: Seq<Seq<char>>, len: int, count: int)
    requires
        stands(frames, len, 2),
        forall|shorter: int| 1 <= shorter < len ==> !stands(frames, shorter, 2),
        stands(frames, len, count),
        !stands(frames, len, count + 1),
    ensures
        without_cycles(frames) == frames.take(len).push(
            "... (repeated "@ + decimal_text(count as nat) + " times)"@,
        ) + without_cycles(frames.skip(count * len)),
{
    lemma_stands_twice(frames, len);
    lemma_shortest(frames, 1, len);
    lemma_stands(frames, len, count);
    lemma_stands(frames, len, count + 1);
    assert(repeats_of(frames, len as nat) == count);
}

/// Where no cycle stands twice at the start, the first frame is kept, and
/// what follows is collapsed on its own.
pub proof fn law_frame_outside_cycles_is_kept(frames: Seq<Seq<char>>)
    requires
        frames.len() > 0,
        forall|len: int| !stands(frames, len, 2),
    ensures
        without_cycles(frames) == seq![frames[0]] + without_cycles(frames.skip(1)),
        without_cycles(Seq::<Seq<char>>::empty()) == Seq::<Seq<char>>::empty(),
{
    lemma_none(frames, 1);
    assert(frames.skip(1) =~= frames.drop_first());
}

/// A recursion through any number of functions, twice or more, is reported
/// as one round of it, followed by an entry that says how many there were.
pub proof fn law_recursion_is_reported_once(
    frames: Seq<Seq<char>>,
    round: Seq<Seq<char>>,
    count: int,
)
    requires
        round.no_duplicates(),
        2 <= round.len() < 30,
        count >= 2,
        frames.len() == count * round.len(),
        forall|i: int| 0 <= i < round.len() ==> #[trigger] frames[i] == round[i],
        forall|i: int|
            0 <= i < frames.len() - round.len() ==> #[trigger] frames[i] == frames[i
                + round.len()],
        forall|i: int| 0 <= i < round.len() ==> (#[trigger] round[i]).len() <= 300,
        ("... (repeated "@ + decimal_text(count as nat) + " times)"@).len() <= 300,
    ensures
        collapsed(frames) == round.push(
            "... (repeated "@ + decimal_text(count as nat) + " times)"@,
        ),
{
    let n = round.len() as int;
    let marker = "... (repeated "@ + decimal_text(count as nat) + " times)"@;
    assert(count * n == (count - 1) * n + n) by (nonlinear_arith);
    assert((count + 1) * n == count * n + n) by (nonlinear_arith);
    assert((count - 1) * n >= n) by (nonlinear_arith)
        requires
            count >= 2,
            n >= 2,
    ;
    assert(stands(frames, n, count));
    assert(stands(frames, n, 2));
    assert(!stands(frames, n, count + 1));
    assert forall|l: int| 1 <= l < n implies !stands(frames, l, 2) by {
        if stands(frames, l, 2) {
            assert((2 - 1) * l == l) by (nonlinear_arith);
            assert(frames[0] == frames[0 + l]);
            assert(round[0] == round[l]);
        }
    }
    lemma_neighbours_differ(frames, round, frames.len() as int);
    law_no_runs_no_change(frames);
    law_cycle_is_kept_once(frames, n, count);
    assert(frames.take(n) =~= round);
    assert(frames.skip(count * n) =~= Seq::<Seq<char>>::empty());
    assert(without_cycles(frames) =~= round.push(marker));
    assert(collapsed(frames) =~= round.push(marker));
}

proof fn lemma_neighbours_differ(frames: Seq<Seq<char>>, round: Seq<Seq<char>>, to: int)
    requires
        round.no_duplicates(),
        2 <= round.len() <= frames.len(),
        0 <= to <= frames.len(),
        forall|i: int| 0 <= i < round.len() ==> #[trigger] frames[i] == round[i],
        forall|i: int|
            0 <= i < frames.len() - round.len() ==> #[trigger] frames[i] == frames[i
                + round.len()],
    ensures
        forall|i: int| 0 <= i < to - 1 ==> #[trigger] frames[i] != frames[i + 1],
    decreases to,
{
    if to > 0 {
        lemma_neighbours_differ(frames, round, to - 1);
        let n = round.len() as int;
        let i = to - 2;
        if 0 <= i {
            if i + 1 < n {
                assert(frames[i] == round[i] && frames[i + 1] == round[i + 1]);
            } else if i >= n {
                assert(frames[i - n] != frames[i - n + 1]);
                assert(frames[i - n] == frames[i - n + n]);
                assert(frames[i - n + 1] == frames[i - n + 1 + n]);
            } else {
                // The last frame of the first round, and the first of the second.
                assert(frames[0] == frames[0 + n]);
                assert(frames[0] == round[0] && frames[i] == round[i]);
            }
        }
    }
}

/// A reported stack is what is left after runs and then cycles are
/// collapsed, each entry cut to its limit. Of more than 30 entries the first
/// 15 and the last 15 stay, followed by one that says how many more frames
/// than 30 there were.
pub proof fn law_collapsing_runs_then_cycles(
    frames: &Vec<String>,
    r: Vec<String>,
    deduped: Vec<String>,
    entries: Vec<String>,
)
    requires
        call_ensures(collapse_stack, (frames,), r),
        call_ensures(collapse_consecutive_duplicates, (frames,), deduped),
        call_ensures(collapse_repeating_pattern, (&deduped,), entries),
    ensures
        texts(deduped@) == without_runs(texts(frames@)),
        texts(entries@) == without_cycles(without_runs(texts(frames@))),
        texts(r@) == collapsed(texts(frames@)),
        r@.len() == (if entries@.len() <= 30 {
            entries@.len()
        } else {
            31
        }),
        entries@.len() <= frames@.len(),
        entries@.len() <= 30 ==> forall|i: int|
            0 <= i < entries@.len() ==> (#[trigger] texts(r@)[i]) == truncated(
                texts(entries@)[i],
                300,
            ),
        entries@.len() > 30 ==> forall|i: int|
            0 <= i < 15 ==> (#[trigger] texts(r@)[i]) == truncated(texts(entries@)[i], 300),
        entries@.len() > 30 ==> forall|i: int|
            15 <= i < 30 ==> (#[trigger] texts(r@)[i]) == truncated(
                texts(entries@)[entries@.len() - 30 + i],
                300,
            ),
        entries@.len() > 30 ==> texts(r@)[30] == "... ("@ + decimal_text(
            (frames@.len() - 30) as nat,
        ) + " more)"@,
{
    lemma_collapsing_shortens(texts(frames@));
    assert(texts(r@).len() == r@.len());
    assert(texts(entries@).len() == entries@.len());
}

} // verus!
