//! How a traced light path ends.
//!
//! A path starts with a bounce budget. While budget is left the scene is
//! queried: a miss ends the path on the sky, an absorbed ray ends it black,
//! and a scattered ray spends one unit of budget and goes on. A path whose
//! budget is spent ends black, before the scene is consulted again.
use vstd::prelude::*;

verus! {

/// What the scene query for the current ray gave.
#[derive(Clone, Copy, Debug, PartialEq, Eq)]
pub enum Event {
    /// Nothing was hit.
    Miss,
    /// A surface was hit and absorbed the ray.
    Absorbed,
    /// A surface was hit and sent the ray on.
    Scattered,
}

/// Where a path stands.
#[derive(Clone, Copy, Debug, PartialEq, Eq)]
pub enum Status {
    /// The current ray is still to be traced.
    Tracing,
    /// The path ended black: absorbed, or out of budget.
    Black,
    /// The path left the scene; its color is the sky's, times the
    /// attenuations gathered on the way.
    Sky,
}

/// A light path being traced.
#[derive(Clone, Copy, Debug, PartialEq, Eq)]
pub struct Path {
    /// Bounces still allowed, the current one included.
    pub remaining: i32,
    pub status: Status,
}

impl Path {
    /// A path is traced only while budget is left.
    pub open spec fn wf(self) -> bool {
        self.status is Tracing ==> self.remaining > 0
    }

    /// A fresh path with budget `depth`.
    pub open spec fn start(depth: i32) -> Path {
        Path {
            remaining: depth,
            status: if depth <= 0 {
                Status::Black
            } else {
                Status::Tracing
            },
        }
    }

    /// Starts a path with the given depth budget. With no budget the path is
    /// black at once, whatever the scene and the ray.
    pub fn new(depth: i32) -> (r: Path)
        ensures
            r.wf(),
            r == Path::start(depth),
            depth <= 0 ==> r.status == Status::Black,
    {
        let status = if depth <= 0 {
            Status::Black
        } else {
            Status::Tracing
        };
        Path { remaining: depth, status }
    }

    /// The path after the scene answered `event` for its current ray.
    pub open spec fn after(self, event: Event) -> Path {
        match event {
            Event::Miss => Path { status: Status::Sky, ..self },
            Event::Absorbed => Path { status: Status::Black, ..self },
            Event::Scattered => Path {
                remaining: (self.remaining - 1) as i32,
                status: if self.remaining - 1 <= 0 {
                    Status::Black
                } else {
                    Status::Tracing
                },
            },
        }
    }

    /// The path after answering `events` in turn, for as long as it is traced.
    pub open spec fn after_all(self, events: Seq<Event>) -> Path
        decreases events.len(),
    {
        if events.len() == 0 || self.status != Status::Tracing {
            self
        } else {
            self.after(events[0]).after_all(events.drop_first())
        }
    }

    /// Records what the scene did with the current ray.
    pub fn advance(&mut self, event: Event)
        requires
            old(self).wf(),
            old(self).status is Tracing,
        ensures
            final(self).wf(),
            *final(self) == old(self).after(event),
    {
        match event {
            Event::Miss => {
                self.status = Status::Sky;
            },
            Event::Absorbed => {
                self.status = Status::Black;
            },
            Event::Scattered => {
                self.remaining = self.remaining - 1;
                if self.remaining <= 0 {
                    self.status = Status::Black;
                }
            },
        }
    }
}

/// The bounce budget bounds the work: a path started with budget `depth`
/// has ended once the scene has answered `depth` queries, whatever the answers.
pub proof fn lemma_budget_ends_path(depth: i32, events: Seq<Event>)
    requires
        events.len() >= depth,
    ensures
        Path::start(depth).after_all(events).status != Status::Tracing,
    decreases events.len(),
{
    if depth > 0 {
        let next = Path::start(depth).after(events[0]);
        if next.status == Status::Tracing {
            assert(next == Path::start((depth - 1) as i32));
            lemma_budget_ends_path((depth - 1) as i32, events.drop_first());
        } else {
            assert(next.after_all(events.drop_first()) == next);
        }
    }
}

} // verus!
