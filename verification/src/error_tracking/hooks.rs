//! The panic hook that all error trackers of a process share. It takes the
//! place of an earlier hook, which it still calls, and which is restored with
//! the last tracker that gives it up.

use vstd::prelude::*;

verus! {

/// The trackers that record panics, by their numbers, the newest first. A
/// process has one of these.
#[derive(Debug)]
pub struct PanicHooks {
    attached: Vec<u64>,
}

impl View for PanicHooks {
    type V = Seq<u64>;

    closed spec fn view(&self) -> Seq<u64> {
        self.attached@
    }
}

/// What the shared hook does on a panic, one after another.
#[derive(Clone, Copy, Debug, PartialEq, Eq, Structural)]
pub enum PanicStep {
    /// Let this tracker record the panic.
    Record(u64),
    /// Call the earlier hook.
    CallEarlier,
}

/// The trackers after one more is attached. One that is attached already
/// changes nothing.
pub open spec fn with_tracker(attached: Seq<u64>, tracker: u64) -> Seq<u64> {
    if attached.contains(tracker) {
        attached
    } else {
        seq![tracker] + attached
    }
}

/// The trackers after one is detached.
pub open spec fn without_tracker(attached: Seq<u64>, tracker: u64) -> Seq<u64>
    decreases attached.len(),
{
    if attached.len() == 0 {
        attached
    } else if attached.last() == tracker {
        without_tracker(attached.drop_last(), tracker)
    } else {
        without_tracker(attached.drop_last(), tracker).push(attached.last())
    }
}

/// What happens on a panic: each tracker records it, the newest first, and
/// then the earlier hook is called.
pub open spec fn panic_steps(attached: Seq<u64>) -> Seq<PanicStep> {
    attached.map_values(|tracker: u64| PanicStep::Record(tracker)).push(PanicStep::CallEarlier)
}

/// Detaching a tracker that is not there changes nothing.
proof fn lemma_without_absent(attached: Seq<u64>, tracker: u64)
    requires
        !attached.contains(tracker),
    ensures
        without_tracker(attached, tracker) == attached,
    decreases attached.len(),
{
    if attached.len() > 0 {
        let front = attached.drop_last();
        assert(attached[attached.len() - 1] != tracker);
        assert forall|i: int| 0 <= i < front.len() implies front[i] != tracker by {
            assert(attached[i] != tracker);
        }
        lemma_without_absent(front, tracker);
        assert(front.push(attached.last()) =~= attached);
    }
}

/// Detaching a tracker takes out its place.
pub proof fn lemma_without_at(attached: Seq<u64>, i: int)
    requires
        attached.no_duplicates(),
        0 <= i < attached.len(),
    ensures
        without_tracker(attached, attached[i]) == attached.remove(i),
    decreases attached.len(),
{
    let front = attached.drop_last();
    if i == front.len() {
        assert forall|j: int| 0 <= j < front.len() implies front[j] != attached[i] by {
            assert(attached[j] != attached[i]);
        }
        lemma_without_absent(front, attached[i]);
        assert(attached.remove(i) =~= front);
    } else {
        assert(attached[front.len() as int] != attached[i]);
        assert(front[i] == attached[i]);
        lemma_without_at(front, i);
        assert(front.remove(i).push(attached.last()) =~= attached.remove(i));
    }
}

/// A tracker is no longer there once it is detached, and the others stay.
proof fn lemma_without_tracker(attached: Seq<u64>, tracker: u64, other: u64)
    ensures
        without_tracker(attached, tracker).contains(other) <==> attached.contains(other) && other
            != tracker,
        attached.no_duplicates() ==> without_tracker(attached, tracker).no_duplicates(),
    decreases attached.len(),
{
    if attached.len() > 0 {
        let front = attached.drop_last();
        let last = attached.last();
        let rest = without_tracker(front, tracker);
        lemma_without_tracker(front, tracker, other);
        lemma_without_tracker(front, tracker, last);
        assert(attached =~= front.push(last));
        assert(attached.contains(other) <==> front.contains(other) || last == other) by {
            if front.contains(other) {
                let i = choose|i: int| 0 <= i < front.len() && front[i] == other;
                assert(attached[i] == other);
            }
            if last == other {
                assert(attached[front.len() as int] == other);
            }
        }
        assert(rest.push(last).contains(other) <==> rest.contains(other) || last == other) by {
            if rest.contains(other) {
                let i = choose|i: int| 0 <= i < rest.len() && rest[i] == other;
                assert(rest.push(last)[i] == other);
            }
            if last == other {
                assert(rest.push(last)[rest.len() as int] == other);
            }
        }
        if attached.no_duplicates() {
            assert(front.no_duplicates());
            assert(!front.contains(last)) by {
                if front.contains(last) {
                    let i = choose|i: int| 0 <= i < front.len() && front[i] == last;
                    assert(attached[i] == attached[front.len() as int]);
                }
            }
            assert(!rest.contains(last));
            assert(rest.push(last).no_duplicates());
        }
    }
}

impl PanicHooks {
    #[verifier::type_invariant]
    spec fn well_formed(self) -> bool {
        self.attached@.no_duplicates()
    }

    /// No tracker is attached, and no hook is taken.
    pub fn new() -> (r: Self)
        ensures
            r@ == Seq::<u64>::empty(),
    {
        let r = PanicHooks { attached: Vec::new() };
        assert(r@ =~= Seq::<u64>::empty());
        r
    }

    fn find(&self, tracker: u64) -> (r: Option<usize>)
        ensures
            match r {
                Some(i) => i < self@.len() && self@[i as int] == tracker,
                None => !self@.contains(tracker),
            },
    {
        let mut i: usize = 0;
        while i < self.attached.len()
            invariant
                i <= self.attached@.len(),
                forall|j: int| 0 <= j < i ==> #[trigger] self.attached@[j] != tracker,
            decreases self.attached@.len() - i,
        {
            if self.attached[i] == tracker {
                return Some(i);
            }
            i += 1;
        }
        None
    }

    /// Attaches a tracker. Says whether it is the first one: then the earlier
    /// hook has to be taken, and the shared one set in its place.
    pub fn attach(&mut self, tracker: u64) -> (take: bool)
        ensures
            final(self)@ == with_tracker(old(self)@, tracker),
            take == (old(self)@.len() == 0),
    {
        proof {
            use_type_invariant(&*self);
        }
        let take = self.attached.len() == 0;
        if self.find(tracker).is_none() {
            let mut attached: Vec<u64> = Vec::new();
            std::mem::swap(&mut attached, &mut self.attached);
            let ghost before = attached@;
            attached.insert(0, tracker);
            proof {
                assert(attached@ =~= seq![tracker] + before);
                assert forall|i: int, j: int| 0 <= i < j < attached@.len() implies attached@[i]
                    != attached@[j] by {
                    if i == 0 {
                        assert(before[j - 1] != tracker);
                    } else {
                        assert(before[i - 1] != before[j - 1]);
                    }
                }
            }
            self.attached = attached;
        }
        take
    }

    /// Detaches a tracker. Says whether it was the last one: then the earlier
    /// hook has to be restored.
    pub fn detach(&mut self, tracker: u64) -> (restore: bool)
        ensures
            final(self)@ == without_tracker(old(self)@, tracker),
            restore == (old(self)@.len() > 0 && final(self)@.len() == 0),
    {
        proof {
            use_type_invariant(&*self);
        }
        match self.find(tracker) {
            Some(i) => {
                let mut attached: Vec<u64> = Vec::new();
                std::mem::swap(&mut attached, &mut self.attached);
                proof {
                    lemma_without_at(attached@, i as int);
                    lemma_without_tracker(attached@, tracker, tracker);
                }
                attached.remove(i);
                let restore = attached.len() == 0;
                self.attached = attached;
                restore
            },
            None => {
                proof {
                    lemma_without_absent(self.attached@, tracker);
                }
                false
            },
        }
    }

    /// What the shared hook does on a panic, while it is set.
    pub fn on_panic(&self) -> (r: Vec<PanicStep>)
        ensures
            r@ == panic_steps(self@),
    {
        let ghost records = self@.map_values(|tracker: u64| PanicStep::Record(tracker));
        let mut r: Vec<PanicStep> = Vec::new();
        let mut i: usize = 0;
        assert(r@ =~= records.take(0));
        while i < self.attached.len()
            invariant
                i <= self.attached@.len(),
                records == self@.map_values(|tracker: u64| PanicStep::Record(tracker)),
                r@ == records.take(i as int),
            decreases self.attached@.len() - i,
        {
            r.push(PanicStep::Record(self.attached[i]));
            i += 1;
            assert(r@ =~= records.take(i as int));
        }
        assert(records.take(i as int) =~= records);
        r.push(PanicStep::CallEarlier);
        r
    }
}

impl Default for PanicHooks {
    fn default() -> (r: Self)
        ensures
            r@ == Seq::<u64>::empty(),
    {
        PanicHooks::new()
    }
}

/// A tracker comes or goes.
pub enum HookEvent {
    Attach(u64),
    Detach(u64),
}

/// The trackers after one event.
pub open spec fn after_event(attached: Seq<u64>, event: HookEvent) -> Seq<u64> {
    match event {
        HookEvent::Attach(tracker) => with_tracker(attached, tracker),
        HookEvent::Detach(tracker) => without_tracker(attached, tracker),
    }
}

/// The trackers after several events, from none on.
pub open spec fn after_events(events: Seq<HookEvent>) -> Seq<u64>
    decreases events.len(),
{
    if events.len() == 0 {
        Seq::empty()
    } else {
        after_event(after_events(events.drop_last()), events.last())
    }
}

/// How many times the earlier hook was taken.
pub open spec fn times_taken(events: Seq<HookEvent>) -> nat
    decreases events.len(),
{
    if events.len() == 0 {
        0
    } else {
        times_taken(events.drop_last()) + if events.last() is Attach && after_events(
            events.drop_last(),
        ).len() == 0 {
            1nat
        } else {
            0nat
        }
    }
}

/// How many times the earlier hook was restored.
pub open spec fn times_restored(events: Seq<HookEvent>) -> nat
    decreases events.len(),
{
    if events.len() == 0 {
        0
    } else {
        times_restored(events.drop_last()) + if events.last() is Detach && after_events(
            events.drop_last(),
        ).len() > 0 && after_events(events).len() == 0 {
            1nat
        } else {
            0nat
        }
    }
}

/// Whether the last that happened to a tracker is that it was attached.
pub open spec fn is_attached(events: Seq<HookEvent>, tracker: u64) -> bool
    decreases events.len(),
{
    if events.len() == 0 {
        false
    } else if events.last() == HookEvent::Attach(tracker) {
        true
    } else if events.last() == HookEvent::Detach(tracker) {
        false
    } else {
        is_attached(events.drop_last(), tracker)
    }
}

/// Whatever trackers come and go: those are attached that came and have not
/// gone since, each of them once, and the earlier hook is held exactly while
/// there is one. It is never taken twice, and is restored with the last
/// tracker.
pub proof fn law_earlier_hook_is_held_while_attached(events: Seq<HookEvent>)
    ensures
        after_events(events).no_duplicates(),
        forall|tracker: u64| #[trigger]
            after_events(events).contains(tracker) <==> is_attached(events, tracker),
        times_taken(events) == times_restored(events) + if after_events(events).len() > 0 {
            1nat
        } else {
            0nat
        },
    decreases events.len(),
{
    if events.len() > 0 {
        let front = events.drop_last();
        let before = after_events(front);
        let after = after_events(events);
        law_earlier_hook_is_held_while_attached(front);
        match events.last() {
            HookEvent::Attach(tracker) => {
                if !before.contains(tracker) {
                    assert forall|i: int, j: int| 0 <= i < j < after.len() implies after[i]
                        != after[j] by {
                        if i == 0 {
                            assert(before[j - 1] != tracker);
                        } else {
                            assert(before[i - 1] != before[j - 1]);
                        }
                    }
                }
                assert(after.contains(tracker)) by {
                    if !before.contains(tracker) {
                        assert(after[0] == tracker);
                    }
                }
                assert forall|other: u64| #[trigger] after.contains(other) <==> is_attached(
                    events,
                    other,
                ) by {
                    if other != tracker && !before.contains(tracker) {
                        if before.contains(other) {
                            let i = choose|i: int| 0 <= i < before.len() && before[i] == other;
                            assert(after[i + 1] == other);
                        }
                        if after.contains(other) {
                            let i = choose|i: int| 0 <= i < after.len() && after[i] == other;
                            assert(before[i - 1] == other);
                        }
                    }
                }
            },
            HookEvent::Detach(tracker) => {
                assert forall|other: u64| #[trigger] after.contains(other) <==> is_attached(
                    events,
                    other,
                ) by {
                    lemma_without_tracker(before, tracker, other);
                }
                lemma_without_tracker(before, tracker, tracker);
                if before.len() == 0 {
                    assert(after.len() == 0);
                }
            },
        }
    }
}

/// How many times a step is taken.
pub open spec fn times(steps: Seq<PanicStep>, step: PanicStep) -> nat
    decreases steps.len(),
{
    if steps.len() == 0 {
        0
    } else {
        times(steps.drop_last(), step) + if steps.last() == step {
            1nat
        } else {
            0nat
        }
    }
}

/// A panic is recorded once by every tracker that is attached, and by no
/// other, and the earlier hook is called once, after them.
pub proof fn law_panic_is_recorded_once_by_each(events: Seq<HookEvent>, tracker: u64)
    ensures
        times(panic_steps(after_events(events)), PanicStep::Record(tracker)) == if is_attached(
            events,
            tracker,
        ) {
            1nat
        } else {
            0nat
        },
        times(panic_steps(after_events(events)), PanicStep::CallEarlier) == 1,
        panic_steps(after_events(events)).last() == PanicStep::CallEarlier,
{
    let attached = after_events(events);
    law_earlier_hook_is_held_while_attached(events);
    assert(attached.contains(tracker) <==> is_attached(events, tracker));
    let records = attached.map_values(|t: u64| PanicStep::Record(t));
    let steps = panic_steps(attached);
    assert(steps.drop_last() =~= records);
    lemma_times(attached, tracker);
}

proof fn lemma_times(attached: Seq<u64>, tracker: u64)
    requires
        attached.no_duplicates(),
    ensures
        times(
            attached.map_values(|t: u64| PanicStep::Record(t)),
            PanicStep::Record(tracker),
        ) == if attached.contains(tracker) {
            1nat
        } else {
            0nat
        },
        times(attached.map_values(|t: u64| PanicStep::Record(t)), PanicStep::CallEarlier) == 0,
    decreases attached.len(),
{
    if attached.len() > 0 {
        let front = attached.drop_last();
        let last = attached.last();
        let records = attached.map_values(|t: u64| PanicStep::Record(t));
        assert(records.drop_last() =~= front.map_values(|t: u64| PanicStep::Record(t)));
        assert(front.no_duplicates());
        lemma_times(front, tracker);
        assert(records.last() == PanicStep::Record(last));
        if front.contains(tracker) {
            let i = choose|i: int| 0 <= i < front.len() && front[i] == tracker;
            assert(attached[i] == tracker);
            assert(attached[i] != attached[front.len() as int]);
        }
        if last == tracker {
            assert(attached[front.len() as int] == tracker);
        }
        if attached.contains(tracker) && last != tracker {
            let i = choose|i: int| 0 <= i < attached.len() && attached[i] == tracker;
            assert(front[i] == tracker);
        }
    }
}

} // verus!
