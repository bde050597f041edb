//! The cursor over the event log and the decisions of the polling worker:
//! whether to fetch or idle, and how long to wait before the next check.
use vstd::prelude::*;

verus! {

/// The next sequence id to fetch.
#[derive(Clone, Copy, Debug, PartialEq, Eq, Structural)]
pub struct Cursor {
    pub next: u32,
}

/// What one iteration of the worker does.
#[derive(Clone, Copy, Debug, PartialEq, Eq, Structural)]
pub enum Action {
    /// Fetch, decode, dispatch and store the event with this sequence id.
    Fetch(u32),
    /// No new event: wait for the idle interval.
    Idle,
}

/// The waits of the worker, in milliseconds.
#[derive(Clone, Copy, Debug, PartialEq, Eq, Structural)]
pub struct Intervals {
    /// After an iteration that found nothing new.
    pub idle_ms: u64,
    /// After an iteration that processed one event.
    pub per_event_ms: u64,
}

/// The action for a cursor at `next` when the source knows `known_count`
/// events.
pub open spec fn action_for(next: u32, known_count: u32) -> Action {
    if known_count > next {
        Action::Fetch(next)
    } else {
        Action::Idle
    }
}

/// The wait that follows `action`.
pub open spec fn wait_for(action: Action, iv: Intervals) -> u64 {
    match action {
        Action::Fetch(_) => iv.per_event_ms,
        Action::Idle => iv.idle_ms,
    }
}

/// Where the cursor stands after `action`.
pub open spec fn next_after(next: u32, action: Action) -> u32 {
    match action {
        Action::Fetch(id) => (id + 1) as u32,
        Action::Idle => next,
    }
}

impl Cursor {
    /// A cursor at the configured starting offset.
    pub fn new(start: u32) -> (r: Cursor)
        ensures
            r.next == start,
    {
        Cursor { next: start }
    }

    /// The next sequence id to fetch.
    pub fn current(&self) -> (r: u32)
        ensures
            r == self.next,
    {
        self.next
    }

    /// Moves the cursor one id on.
    pub fn advance(&mut self)
        requires
            old(self).next < u32::MAX,
        ensures
            final(self).next == old(self).next + 1,
    {
        self.next = self.next + 1;
    }

    /// What to do now that the source knows `known_count` events: fetch the
    /// event at the cursor if the source has it, else idle.
    pub fn decide(&self, known_count: u32) -> (r: Action)
        ensures
            r == action_for(self.next, known_count),
    {
        if known_count > self.next {
            Action::Fetch(self.next)
        } else {
            Action::Idle
        }
    }

    /// Ends an iteration: after a fetch the cursor moves past the fetched
    /// id, whatever became of the event; after idling it stays.
    pub fn complete(&mut self, action: Action)
        requires
            action matches Action::Fetch(id) ==> id == old(self).next && id < u32::MAX,
        ensures
            final(self).next == next_after(old(self).next, action),
    {
        match action {
            Action::Fetch(_) => self.advance(),
            Action::Idle => {},
        }
    }
}

/// The wait after an iteration that took `action`.
pub fn wait_after(action: Action, iv: &Intervals) -> (r: u64)
    ensures
        r == wait_for(action, *iv),
{
    match action {
        Action::Fetch(_) => iv.per_event_ms,
        Action::Idle => iv.idle_ms,
    }
}

/// The wait chosen when the source knows `known_count` events and the cursor
/// is at `next`: the per-event interval while events are waiting, else the
/// idle interval.
pub fn select_interval(known_count: u32, next: u32, iv: &Intervals) -> (r: u64)
    ensures
        r == (if known_count > next {
            iv.per_event_ms
        } else {
            iv.idle_ms
        }),
{
    let c = Cursor::new(next);
    let a = c.decide(known_count);
    wait_after(a, iv)
}

/// The ids fetched over a run whose count queries returned `counts`, from a
/// cursor at `start`, and where the cursor stands at the end.
pub open spec fn run(start: u32, counts: Seq<u32>) -> (Seq<u32>, u32)
    decreases counts.len(),
{
    if counts.len() == 0 {
        (Seq::empty(), start)
    } else {
        let (fetched, next) = run(start, counts.drop_last());
        let action = action_for(next, counts.last());
        match action {
            Action::Fetch(id) => (fetched.push(id), next_after(next, action)),
            Action::Idle => (fetched, next),
        }
    }
}

/// Over any run, the ids handed to the decoder are the starting offset and
/// the ids after it, one by one, with none skipped or repeated; the cursor
/// ends just past the last of them.
pub proof fn lemma_run_fetches_in_order(start: u32, counts: Seq<u32>)
    ensures
        forall|i: int| 0 <= i < run(start, counts).0.len() ==> #[trigger] run(start, counts).0[i] == start + i,
        run(start, counts).1 == start + run(start, counts).0.len(),
    decreases counts.len(),
{
    if counts.len() > 0 {
        lemma_run_fetches_in_order(start, counts.drop_last());
    }
}

} // verus!
