//! The event bus that decouples the game's components.
//!
//! Writers append events to a shared, append-only queue; each reading
//! component keeps a cursor of its own, so every reader observes every event
//! exactly once and in order, independently of the other readers.

use vstd::prelude::*;

verus! {

/// A discrete game event published on the bus.
#[derive(Copy, Clone, PartialEq, Eq, Structural, Debug)]
pub enum GameEvent {
    /// The snake ate a food item and should grow.
    Growth,
    /// The snake collided; the reset handler must act.
    GameOver,
    /// The spawner created a food item.
    FoodSpawned,
    /// A food item's lifespan ran out and it was removed.
    FoodRotted,
}

/// The append-only queue of events published so far.
pub struct Events {
    pub queue: Vec<GameEvent>,
}

/// A reading component's cursor into the queue.
#[derive(Copy, Clone, PartialEq, Eq, Structural, Debug)]
pub struct EventReader {
    pub cursor: usize,
}

impl Events {
    /// An empty bus.
    pub fn new() -> (r: Events)
        ensures
            r.queue@ == Seq::<GameEvent>::empty(),
    {
        Events { queue: Vec::new() }
    }

    /// Publishes one event at the end of the queue.
    pub fn send(&mut self, e: GameEvent)
        ensures
            final(self).queue@ == old(self).queue@.push(e),
    {
        self.queue.push(e);
    }

    /// How many events have been published so far.
    pub fn len(&self) -> (r: usize)
        ensures
            r == self.queue@.len(),
    {
        self.queue.len()
    }

    /// The event at index `i` of the queue.
    pub fn get(&self, i: usize) -> (r: GameEvent)
        requires
            i < self.queue@.len(),
        ensures
            r == self.queue@[i as int],
    {
        self.queue[i]
    }
}

impl EventReader {
    /// A reader that has seen nothing yet.
    pub fn new() -> (r: EventReader)
        ensures
            r.cursor == 0,
    {
        EventReader { cursor: 0 }
    }

    /// The cursor never points past the end of the queue.
    pub open spec fn wf(self, events: Events) -> bool {
        self.cursor <= events.queue@.len()
    }

    /// The events this reader has not observed yet, oldest first.
    pub open spec fn unread(self, events: Events) -> Seq<GameEvent> {
        events.queue@.skip(self.cursor as int)
    }

    /// Consumes every unread event and reports whether `target` was among
    /// them.
    pub fn drain_contains(&mut self, events: &Events, target: GameEvent) -> (r: bool)
        requires
            old(self).wf(*events),
        ensures
            final(self).cursor == events.queue@.len(),
            r == old(self).unread(*events).contains(target),
    {
        let ghost cut = self.cursor as int;
        let n = events.len();
        let mut found = false;
        let mut i: usize = self.cursor;
        while i < n
            invariant
                0 <= cut <= i <= n,
                n == events.queue@.len(),
                found == exists|j: int| cut <= j < i && events.queue@[j] == target,
            decreases n - i,
        {
            if events.get(i) == target {
                found = true;
            }
            i = i + 1;
        }
        proof {
            lemma_skip_contains(events.queue@, cut, target);
        }
        self.cursor = n;
        found
    }
}

/// A suffix of a sequence contains an element exactly when some index past
/// the cut holds it.
proof fn lemma_skip_contains(s: Seq<GameEvent>, cut: int, e: GameEvent)
    requires
        0 <= cut <= s.len(),
    ensures
        s.skip(cut).contains(e) <==> exists|j: int| cut <= j < s.len() && s[j] == e,
{
    if s.skip(cut).contains(e) {
        let k = choose|k: int| 0 <= k < s.skip(cut).len() && s.skip(cut)[k] == e;
        assert(s[cut + k] == e);
    }
    if exists|j: int| cut <= j < s.len() && s[j] == e {
        let j = choose|j: int| cut <= j < s.len() && s[j] == e;
        assert(s.skip(cut)[j - cut] == e);
    }
}

/// A concatenation contains an element exactly when one of its parts does.
pub proof fn lemma_contains_concat(a: Seq<GameEvent>, b: Seq<GameEvent>, e: GameEvent)
    ensures
        (a + b).contains(e) <==> a.contains(e) || b.contains(e),
{
    if (a + b).contains(e) {
        let k = choose|k: int| 0 <= k < (a + b).len() && (a + b)[k] == e;
        if k < a.len() {
            assert(a[k] == e);
        } else {
            assert(b[k - a.len()] == e);
        }
    }
    if a.contains(e) {
        let k = choose|k: int| 0 <= k < a.len() && a[k] == e;
        assert((a + b)[k] == e);
    }
    if b.contains(e) {
        let k = choose|k: int| 0 <= k < b.len() && b[k] == e;
        assert((a + b)[a.len() + k] == e);
    }
}

} // verus!
