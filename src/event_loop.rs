use vstd::prelude::*;

verus! {

/// Where the server is in its life.
#[derive(Debug, Clone, Copy, PartialEq, Eq, Structural)]
pub enum Phase {
    /// Accepting connections.
    Running,
    /// No longer accepting; waiting for dispatched handlers to finish.
    Draining,
    /// Every handler has finished after a shutdown: the server may exit.
    Stopped,
}

/// What the event loop observed.
#[derive(Debug, Clone, Copy, PartialEq, Eq, Structural)]
pub enum LoopEvent {
    /// A connection can be accepted; its handler would be tracked under
    /// this key.
    ConnectionReady(usize),
    /// The handler tracked under this key has finished.
    HandlerDone(usize),
    /// A shutdown signal arrived.
    Shutdown,
}

/// What the event loop is to do about an event.
#[derive(Debug, Clone, Copy, PartialEq, Eq, Structural)]
pub enum LoopAction {
    /// Accept the connection and run a handler for it under this key.
    Dispatch(usize),
    /// Forget the finished handler under this key.
    Reap(usize),
    /// Stop accepting connections and wait for the outstanding handlers.
    StopAccepting,
    /// Nothing to do.
    Ignore,
}

/// The loop's state: its phase and the keys of handlers not yet reaped.
pub ghost struct LoopView {
    pub phase: Phase,
    pub outstanding: Set<usize>,
}

impl LoopView {
    /// A stopped loop has nothing outstanding, and a draining one has
    /// something left to wait for.
    pub open spec fn well_formed(self) -> bool {
        &&& self.outstanding.finite()
        &&& self.phase == Phase::Stopped ==> self.outstanding == Set::<usize>::empty()
        &&& self.phase == Phase::Draining ==> self.outstanding != Set::<usize>::empty()
    }
}

/// One transition: the next state and the action for `event`.
pub open spec fn next(s: LoopView, event: LoopEvent) -> (LoopView, LoopAction) {
    match event {
        LoopEvent::ConnectionReady(key) => {
            if s.phase == Phase::Running && !s.outstanding.contains(key) {
                (
                    LoopView { phase: s.phase, outstanding: s.outstanding.insert(key) },
                    LoopAction::Dispatch(key),
                )
            } else {
                (s, LoopAction::Ignore)
            }
        },
        LoopEvent::HandlerDone(key) => {
            if s.outstanding.contains(key) {
                let rest = s.outstanding.remove(key);
                let phase = if s.phase == Phase::Draining && rest == Set::<usize>::empty() {
                    Phase::Stopped
                } else {
                    s.phase
                };
                (LoopView { phase, outstanding: rest }, LoopAction::Reap(key))
            } else {
                (s, LoopAction::Ignore)
            }
        },
        LoopEvent::Shutdown => {
            if s.phase == Phase::Running {
                let phase = if s.outstanding == Set::<usize>::empty() {
                    Phase::Stopped
                } else {
                    Phase::Draining
                };
                (LoopView { phase, outstanding: s.outstanding }, LoopAction::StopAccepting)
            } else {
                (s, LoopAction::Ignore)
            }
        },
    }
}

/// The state after a sequence of events.
pub open spec fn run(s: LoopView, events: Seq<LoopEvent>) -> LoopView
    decreases events.len(),
{
    if events.len() == 0 {
        s
    } else {
        run(next(s, events[0]).0, events.drop_first())
    }
}

/// Whether some event of a sequence, from state `s` on, is answered with a
/// dispatch.
pub open spec fn dispatches(s: LoopView, events: Seq<LoopEvent>) -> bool
    decreases events.len(),
{
    if events.len() == 0 {
        false
    } else {
        next(s, events[0]).1 is Dispatch || dispatches(next(s, events[0]).0, events.drop_first())
    }
}

/// The event loop's decisions.
pub struct LoopState {
    phase: Phase,
    outstanding: Vec<usize>,
}

impl View for LoopState {
    type V = LoopView;

    closed spec fn view(&self) -> LoopView {
        LoopView { phase: self.phase, outstanding: self.outstanding@.to_set() }
    }
}

/// Removing one entry from a sequence without repeats removes its value
/// from the set of values.
proof fn lemma_remove_unique(s: Seq<usize>, i: int)
    requires
        s.no_duplicates(),
        0 <= i < s.len(),
    ensures
        s.remove(i).no_duplicates(),
        s.remove(i).to_set() == s.to_set().remove(s[i]),
{
    let r = s.remove(i);
    assert forall|a: int, b: int| 0 <= a < b < r.len() implies r[a] != r[b] by {
        let sa = if a < i { a } else { a + 1 };
        let sb = if b < i { b } else { b + 1 };
        assert(r[a] == s[sa] && r[b] == s[sb]);
    }
    assert forall|x: usize| r.contains(x) <==> s.contains(x) && x != s[i] by {
        if r.contains(x) {
            let j = choose|j: int| 0 <= j < r.len() && r[j] == x;
            if j < i {
                assert(s[j] == x);
            } else {
                assert(s[j + 1] == x);
            }
        }
        if s.contains(x) && x != s[i] {
            let j = choose|j: int| 0 <= j < s.len() && s[j] == x;
            if j < i {
                assert(r[j] == x);
            } else {
                assert(r[j - 1] == x);
            }
        }
    }
    assert(r.to_set() =~= s.to_set().remove(s[i]));
}

/// Appending a value that a sequence without repeats does not hold keeps it
/// without repeats and adds the value to its set.
proof fn lemma_push_unique(s: Seq<usize>, x: usize)
    requires
        s.no_duplicates(),
        !s.contains(x),
    ensures
        s.push(x).no_duplicates(),
        s.push(x).to_set() == s.to_set().insert(x),
{
    let p = s.push(x);
    assert forall|a: int, b: int| 0 <= a < b < p.len() implies p[a] != p[b] by {
        if b == s.len() {
            assert(s.contains(p[a]));
        }
    }
    assert forall|y: usize| p.contains(y) <==> s.contains(y) || y == x by {
        if p.contains(y) {
            let j = choose|j: int| 0 <= j < p.len() && p[j] == y;
            if j < s.len() {
                assert(s[j] == y);
            }
        }
        if s.contains(y) {
            let j = choose|j: int| 0 <= j < s.len() && s[j] == y;
            assert(p[j] == y);
        }
        if y == x {
            assert(p[s.len() as int] == y);
        }
    }
    assert(p.to_set() =~= s.to_set().insert(x));
}

/// A sequence is empty exactly when its set is.
proof fn lemma_empty_set(s: Seq<usize>)
    ensures
        (s.len() == 0) <==> (s.to_set() == Set::<usize>::empty()),
{
    if s.len() != 0 {
        assert(s.to_set().contains(s[0]));
    } else {
        assert(s.to_set() =~= Set::<usize>::empty());
    }
}

/// A copy of `v`.
fn copy_keys(v: &Vec<usize>) -> (r: Vec<usize>)
    ensures
        r@ == v@,
{
    let mut out: Vec<usize> = Vec::new();
    let mut i: usize = 0;
    while i < v.len()
        invariant
            i <= v@.len(),
            out@ == v@.subrange(0, i as int),
        decreases v@.len() - i,
    {
        out.push(v[i]);
        i = i + 1;
        assert(out@ =~= v@.subrange(0, i as int));
    }
    assert(v@.subrange(0, i as int) =~= v@);
    out
}

/// Where `key` stands in `v`, if anywhere.
fn position(v: &Vec<usize>, key: usize) -> (r: Option<usize>)
    ensures
        r matches Some(i) ==> i < v@.len() && v@[i as int] == key,
        r is None ==> !v@.contains(key),
{
    let mut i: usize = 0;
    while i < v.len()
        invariant
            i <= v@.len(),
            forall|j: int| 0 <= j < i ==> v@[j] != key,
        decreases v@.len() - i,
    {
        if v[i] == key {
            return Some(i);
        }
        i = i + 1;
    }
    None
}

impl LoopState {
    #[verifier::type_invariant]
    closed spec fn inv(self) -> bool {
        self.outstanding@.no_duplicates() && self@.well_formed()
    }

    /// A running loop with nothing outstanding.
    pub fn new() -> (r: LoopState)
        ensures
            r@ == (LoopView { phase: Phase::Running, outstanding: Set::<usize>::empty() }),
    {
        let r = LoopState { phase: Phase::Running, outstanding: Vec::new() };
        assert(r.outstanding@.to_set() =~= Set::<usize>::empty());
        r
    }

    /// Takes one event: moves to the next state and returns the action.
    pub fn step(&mut self, event: LoopEvent) -> (a: LoopAction)
        ensures
            (final(self)@, a) == next(old(self)@, event),
            final(self)@.well_formed(),
    {
        proof {
            use_type_invariant(&*self);
            lemma_empty_set(self.outstanding@);
        }
        match event {
            LoopEvent::ConnectionReady(key) => {
                if self.phase == Phase::Running {
                    if position(&self.outstanding, key).is_none() {
                        proof {
                            lemma_push_unique(self.outstanding@, key);
                        }
                        let mut keys = copy_keys(&self.outstanding);
                        keys.push(key);
                        self.outstanding = keys;
                        return LoopAction::Dispatch(key);
                    }
                }
                LoopAction::Ignore
            },
            LoopEvent::HandlerDone(key) => {
                match position(&self.outstanding, key) {
                    Some(i) => {
                        proof {
                            lemma_remove_unique(self.outstanding@, i as int);
                            lemma_empty_set(self.outstanding@.remove(i as int));
                        }
                        let phase = if self.phase == Phase::Draining && self.outstanding.len()
                            == 1 {
                            Phase::Stopped
                        } else {
                            self.phase
                        };
                        let mut keys = copy_keys(&self.outstanding);
                        keys.remove(i);
                        *self = LoopState { phase, outstanding: keys };
                        LoopAction::Reap(key)
                    },
                    None => LoopAction::Ignore,
                }
            },
            LoopEvent::Shutdown => {
                if self.phase == Phase::Running {
                    if self.outstanding.len() == 0 {
                        self.phase = Phase::Stopped;
                    } else {
                        self.phase = Phase::Draining;
                    }
                    LoopAction::StopAccepting
                } else {
                    LoopAction::Ignore
                }
            },
        }
    }

    pub fn phase(&self) -> (r: Phase)
        ensures
            r == self@.phase,
    {
        self.phase
    }

    /// Whether the loop may exit: shut down, with every handler finished.
    pub fn is_stopped(&self) -> (r: bool)
        ensures
            r == (self@.phase == Phase::Stopped),
    {
        self.phase == Phase::Stopped
    }

    /// The keys of the handlers not yet reaped, each once.
    pub fn outstanding(&self) -> (r: Vec<usize>)
        ensures
            r@.to_set() == self@.outstanding,
            r@.no_duplicates(),
    {
        proof {
            use_type_invariant(self);
        }
        copy_keys(&self.outstanding)
    }
}

/// A transition keeps the state well formed.
pub proof fn lemma_next_well_formed(s: LoopView, event: LoopEvent)
    requires
        s.well_formed(),
    ensures
        next(s, event).0.well_formed(),
{
    match event {
        LoopEvent::ConnectionReady(key) => {
            if s.phase == Phase::Running && !s.outstanding.contains(key) {
                assert(s.outstanding.insert(key).contains(key));
            }
        },
        LoopEvent::HandlerDone(key) => {},
        LoopEvent::Shutdown => {},
    }
}

/// Any sequence of events keeps the state well formed.
pub proof fn lemma_run_well_formed(s: LoopView, events: Seq<LoopEvent>)
    requires
        s.well_formed(),
    ensures
        run(s, events).well_formed(),
    decreases events.len(),
{
    if events.len() > 0 {
        lemma_next_well_formed(s, events[0]);
        lemma_run_well_formed(next(s, events[0]).0, events.drop_first());
    }
}

/// Out of the running phase, no event leads back to it and none is answered
/// with a dispatch.
pub proof fn lemma_no_dispatch_once_stopping(s: LoopView, events: Seq<LoopEvent>)
    requires
        s.phase != Phase::Running,
    ensures
        !dispatches(s, events),
        run(s, events).phase != Phase::Running,
    decreases events.len(),
{
    if events.len() > 0 {
        lemma_no_dispatch_once_stopping(next(s, events[0]).0, events.drop_first());
    }
}

/// A handler stays outstanding until its own completion is observed.
pub proof fn lemma_outstanding_until_done(s: LoopView, events: Seq<LoopEvent>, key: usize)
    requires
        s.outstanding.contains(key),
        !events.contains(LoopEvent::HandlerDone(key)),
    ensures
        run(s, events).outstanding.contains(key),
    decreases events.len(),
{
    if events.len() > 0 {
        let rest = events.drop_first();
        assert(events[0] != LoopEvent::HandlerDone(key));
        assert forall|i: int| 0 <= i < rest.len() implies rest[i] != LoopEvent::HandlerDone(key) by {
            assert(rest[i] == events[i + 1]);
        }
        lemma_outstanding_until_done(next(s, events[0]).0, rest, key);
    }
}

/// After a shutdown signal, whatever events follow: no connection is
/// dispatched, the loop never runs again, and it reaches the stopped phase
/// only once every handler dispatched before the signal has finished.
pub proof fn lemma_graceful_shutdown(s: LoopView, events: Seq<LoopEvent>)
    requires
        s.well_formed(),
        s.phase == Phase::Running,
    ensures
        next(s, LoopEvent::Shutdown).1 == LoopAction::StopAccepting,
        !dispatches(next(s, LoopEvent::Shutdown).0, events),
        run(next(s, LoopEvent::Shutdown).0, events).phase != Phase::Running,
        run(next(s, LoopEvent::Shutdown).0, events).phase == Phase::Stopped ==> forall|key: usize|
            #[trigger] s.outstanding.contains(key) ==> events.contains(LoopEvent::HandlerDone(key)),
{
    let s1 = next(s, LoopEvent::Shutdown).0;
    lemma_next_well_formed(s, LoopEvent::Shutdown);
    lemma_no_dispatch_once_stopping(s1, events);
    lemma_run_well_formed(s1, events);
    assert forall|key: usize| #[trigger]
        s.outstanding.contains(key) && run(s1, events).phase == Phase::Stopped implies events.contains(
        LoopEvent::HandlerDone(key),
    ) by {
        if !events.contains(LoopEvent::HandlerDone(key)) {
            lemma_outstanding_until_done(s1, events, key);
            assert(run(s1, events).outstanding.contains(key));
        }
    }
}

} // verus!
