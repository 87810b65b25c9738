use vstd::prelude::*;

verus! {

/// Notification that a pipeline was generated for a project.
#[derive(Debug)]
pub struct PipelineEvent {
    pub project_id: u128,
    pub pipeline_id: u128,
}

/// Notification that a security finding was recorded for a project.
#[derive(Debug)]
pub struct SecurityEvent {
    pub project_id: u128,
    pub finding_id: u128,
    pub severity: String,
    pub description: String,
}

/// A domain event distributed to live subscribers.
#[derive(Debug)]
pub enum RealtimeEvent {
    PipelineCreated(PipelineEvent),
    SecurityFindingCreated(SecurityEvent),
}

impl RealtimeEvent {
    /// The project this event is tagged with.
    pub open spec fn project_spec(&self) -> u128 {
        match self {
            RealtimeEvent::PipelineCreated(e) => e.project_id,
            RealtimeEvent::SecurityFindingCreated(e) => e.project_id,
        }
    }

    pub fn project(&self) -> (p: u128)
        ensures
            p == self.project_spec(),
    {
        match self {
            RealtimeEvent::PipelineCreated(e) => e.project_id,
            RealtimeEvent::SecurityFindingCreated(e) => e.project_id,
        }
    }

    /// A field-for-field copy of the event.
    pub fn duplicate(&self) -> (r: RealtimeEvent)
        ensures
            r == *self,
    {
        match self {
            RealtimeEvent::PipelineCreated(e) => RealtimeEvent::PipelineCreated(
                PipelineEvent { project_id: e.project_id, pipeline_id: e.pipeline_id },
            ),
            RealtimeEvent::SecurityFindingCreated(e) => RealtimeEvent::SecurityFindingCreated(
                SecurityEvent {
                    project_id: e.project_id,
                    finding_id: e.finding_id,
                    severity: e.severity.clone(),
                    description: e.description.clone(),
                },
            ),
        }
    }
}

/// The events of `log` tagged with project `p`, in their order in `log`.
pub open spec fn project_events(log: Seq<RealtimeEvent>, p: u128) -> Seq<RealtimeEvent>
    decreases log.len(),
{
    if log.len() == 0 {
        Seq::empty()
    } else if log.first().project_spec() == p {
        seq![log.first()] + project_events(log.drop_first(), p)
    } else {
        project_events(log.drop_first(), p)
    }
}

/// Filtering distributes over concatenation.
pub proof fn lemma_project_events_concat(a: Seq<RealtimeEvent>, b: Seq<RealtimeEvent>, p: u128)
    ensures
        project_events(a + b, p) == project_events(a, p) + project_events(b, p),
    decreases a.len(),
{
    if a.len() == 0 {
        assert(a + b =~= b);
        assert(project_events(a, p) + project_events(b, p) =~= project_events(b, p));
    } else {
        assert((a + b).drop_first() =~= a.drop_first() + b);
        lemma_project_events_concat(a.drop_first(), b, p);
        if a.first().project_spec() == p {
            assert(seq![a.first()] + (project_events(a.drop_first(), p) + project_events(b, p))
                =~= (seq![a.first()] + project_events(a.drop_first(), p)) + project_events(
                b,
                p,
            ));
        }
    }
}

/// A subscriber bound to project `p` never observes a foreign event: every
/// event in the filtered sequence is tagged with `p`.
pub proof fn lemma_no_foreign_events(log: Seq<RealtimeEvent>, p: u128)
    ensures
        forall|k: int|
            0 <= k < project_events(log, p).len() ==> #[trigger] project_events(log, p)[k]
                .project_spec() == p,
    decreases log.len(),
{
    if log.len() != 0 {
        lemma_no_foreign_events(log.drop_first(), p);
        let rest = project_events(log.drop_first(), p);
        assert forall|k: int|
            0 <= k < project_events(log, p).len() implies #[trigger] project_events(log, p)[k]
            .project_spec() == p by {
            if log.first().project_spec() == p {
                if k > 0 {
                    assert(project_events(log, p)[k] == rest[k - 1]);
                }
            } else {
                assert(project_events(log, p)[k] == rest[k]);
            }
        }
    }
}

/// Filtering a one-event log keeps the event exactly when it matches.
pub proof fn lemma_project_events_singleton(e: RealtimeEvent, p: u128)
    ensures
        e.project_spec() == p ==> project_events(seq![e], p) =~= seq![e],
        e.project_spec() != p ==> project_events(seq![e], p) =~= Seq::<RealtimeEvent>::empty(),
{
    assert(seq![e].drop_first() =~= Seq::<RealtimeEvent>::empty());
    assert(project_events(Seq::<RealtimeEvent>::empty(), p) =~= Seq::<RealtimeEvent>::empty());
}

/// The position at which the event published at `i` is delivered to a
/// subscriber of its project that joined at `c`: the number of matching
/// events published in between.
pub open spec fn delivery_index(log: Seq<RealtimeEvent>, p: u128, c: int, i: int) -> int {
    project_events(log.subrange(c, i), p).len() as int
}

/// An event published at position `i` for project `p` is observed exactly
/// once by every subscriber of `p` active since the event was published
/// (that is, with any join point `c <= i`): it appears at the single
/// position `delivery_index(log, p, c, i)` of that subscriber's delivered
/// sequence. The delivered sequence itself is a function of the log, the
/// project and the join point alone, so all such subscribers observe the
/// same events.
pub proof fn lemma_event_delivered_once(log: Seq<RealtimeEvent>, p: u128, c: int, i: int)
    requires
        0 <= c <= i < log.len(),
        log[i].project_spec() == p,
    ensures
        0 <= delivery_index(log, p, c, i) < project_events(log.skip(c), p).len(),
        project_events(log.skip(c), p)[delivery_index(log, p, c, i)] == log[i],
{
    assert(log.skip(c) =~= log.subrange(c, i) + (seq![log[i]] + log.skip(i + 1)));
    lemma_project_events_concat(log.subrange(c, i), seq![log[i]] + log.skip(i + 1), p);
    lemma_project_events_concat(seq![log[i]], log.skip(i + 1), p);
    lemma_project_events_singleton(log[i], p);
}

/// Delivery preserves publish order: of two events for the same project, the
/// one published first is delivered first to any subscriber active for both.
pub proof fn lemma_delivery_in_publish_order(
    log: Seq<RealtimeEvent>,
    p: u128,
    c: int,
    i: int,
    j: int,
)
    requires
        0 <= c <= i < j < log.len(),
        log[i].project_spec() == p,
        log[j].project_spec() == p,
    ensures
        delivery_index(log, p, c, i) < delivery_index(log, p, c, j),
{
    assert(log.subrange(c, j) =~= log.subrange(c, i) + (seq![log[i]] + log.subrange(i + 1, j)));
    lemma_project_events_concat(log.subrange(c, i), seq![log[i]] + log.subrange(i + 1, j), p);
    lemma_project_events_concat(seq![log[i]], log.subrange(i + 1, j), p);
    lemma_project_events_singleton(log[i], p);
}

/// The backlog bound the application's shared bus is created with.
pub const EVENT_BACKLOG_CAPACITY: usize = 100;

/// The in-process broadcast primitive: a bounded backlog of published events,
/// fanned out to any number of independent subscribers. Once more events have
/// been published than the backlog holds, the oldest are dropped; a
/// subscriber that still needed them observes an overflow instead.
pub struct EventBus {
    buf: Vec<RealtimeEvent>,
    base: usize,
    capacity: usize,
    log: Ghost<Seq<RealtimeEvent>>,
}

/// One subscriber's position in the bus's history: the publish index of the
/// next event it has yet to observe.
#[derive(Debug)]
pub struct Subscriber {
    next: usize,
}

/// What one attempt to receive yields.
#[derive(Debug)]
pub enum Recv {
    /// The next event in publish order.
    Event(RealtimeEvent),
    /// Nothing published yet beyond the subscriber's position.
    Empty,
    /// The subscriber fell behind the backlog; its stream is over.
    Lagged,
}

impl Subscriber {
    /// The publish index of the next event this subscriber would observe.
    pub closed spec fn cursor(&self) -> int {
        self.next as int
    }
}

impl EventBus {
    /// Every event ever published, in publish order.
    pub closed spec fn history(&self) -> Seq<RealtimeEvent> {
        self.log@
    }

    /// How many of the oldest events have been dropped from the backlog.
    pub closed spec fn dropped(&self) -> int {
        self.base as int
    }

    /// The backlog bound the bus was created with.
    pub closed spec fn capacity_spec(&self) -> int {
        self.capacity as int
    }

    /// The backlog holds exactly the undropped tail of the history, and never
    /// more than the capacity.
    pub closed spec fn wf(&self) -> bool {
        &&& self.capacity >= 1
        &&& self.log@.len() <= usize::MAX
        &&& self.base + self.buf@.len() == self.log@.len()
        &&& self.buf@ =~= self.log@.subrange(self.base as int, self.log@.len() as int)
        &&& self.buf@.len() <= self.capacity
    }

    /// A fresh bus with the given backlog capacity and no history.
    pub fn new(capacity: usize) -> (r: EventBus)
        requires
            capacity >= 1,
        ensures
            r.wf(),
            r.history() =~= Seq::<RealtimeEvent>::empty(),
            r.dropped() == 0,
            r.capacity_spec() == capacity,
    {
        EventBus { buf: Vec::new(), base: 0, capacity, log: Ghost(Seq::empty()) }
    }

    /// Publish an event: append it to the history, dropping the oldest
    /// backlog entry when the backlog is already full. Never blocks and
    /// never fails, whether or not anyone subscribed.
    pub fn publish(&mut self, e: RealtimeEvent)
        requires
            old(self).wf(),
            old(self).history().len() < usize::MAX,
        ensures
            final(self).wf(),
            final(self).history() =~= old(self).history().push(e),
            final(self).capacity_spec() == old(self).capacity_spec(),
            final(self).dropped() == if old(self).history().len() - old(self).dropped()
                == old(self).capacity_spec() {
                old(self).dropped() + 1
            } else {
                old(self).dropped()
            },
    {
        if self.buf.len() == self.capacity {
            self.buf.remove(0);
            self.base = self.base + 1;
        }
        self.buf.push(e);
        proof {
            self.log@ = self.log@.push(e);
        }
    }

    /// A new independent subscriber that observes every event published
    /// after this call.
    pub fn subscribe(&self) -> (s: Subscriber)
        requires
            self.wf(),
        ensures
            s.cursor() == self.history().len(),
    {
        Subscriber { next: self.buf.len() + self.base }
    }

    /// Hand the subscriber the next event of the history, if one is still
    /// available: the subscriber observes every event in publish order, or
    /// learns that it lagged past the backlog.
    pub fn recv(&self, s: &mut Subscriber) -> (r: Recv)
        requires
            self.wf(),
        ensures
            match r {
                Recv::Event(e) => {
                    &&& self.dropped() <= old(s).cursor() < self.history().len()
                    &&& e == self.history()[old(s).cursor()]
                    &&& final(s).cursor() == old(s).cursor() + 1
                },
                Recv::Empty => {
                    &&& old(s).cursor() >= self.history().len()
                    &&& *final(s) == *old(s)
                },
                Recv::Lagged => {
                    &&& old(s).cursor() < self.dropped()
                    &&& *final(s) == *old(s)
                },
            },
    {
        if s.next < self.base {
            Recv::Lagged
        } else if s.next - self.base >= self.buf.len() {
            Recv::Empty
        } else {
            let e = self.buf[s.next - self.base].duplicate();
            s.next = s.next + 1;
            Recv::Event(e)
        }
    }
}

/// What one poll of a filtered stream yields.
#[derive(Debug)]
pub enum StreamStep {
    /// The next event of the bound project, in publish order.
    Event(RealtimeEvent),
    /// No event of the bound project is pending; the connection sends a
    /// keep-alive marker instead.
    KeepAlive,
    /// The stream lagged past the bus's backlog; it terminates.
    Lagged,
}

/// One open streaming connection: a subscriber narrowed to the events of a
/// single project. Every event it yields is tagged with the bound project;
/// all others are silently discarded.
#[derive(Debug)]
pub struct ProjectStream {
    sub: Subscriber,
    project_id: u128,
}

impl ProjectStream {
    /// The project this stream is bound to.
    pub closed spec fn project_spec(&self) -> u128 {
        self.project_id
    }

    /// The publish index up to which the stream has consumed the history.
    pub closed spec fn cursor(&self) -> int {
        self.sub.cursor()
    }

    pub fn project(&self) -> (p: u128)
        ensures
            p == self.project_spec(),
    {
        self.project_id
    }

    /// Open a stream over `bus` for one project. It observes only events
    /// published after this call.
    pub fn open(bus: &EventBus, project_id: u128) -> (r: ProjectStream)
        requires
            bus.wf(),
        ensures
            r.project_spec() == project_id,
            r.cursor() == bus.history().len(),
    {
        ProjectStream { sub: bus.subscribe(), project_id }
    }

    /// Advance the stream: skip foreign events and yield the next event of
    /// the bound project, a keep-alive when none is pending, or the overflow
    /// signal when the backlog was outrun. The events passed over between
    /// the old and the new cursor contribute exactly what is yielded to the
    /// filtered sequence `project_events`.
    pub fn next_step(&mut self, bus: &EventBus) -> (r: StreamStep)
        requires
            bus.wf(),
            old(self).cursor() <= bus.history().len(),
        ensures
            final(self).project_spec() == old(self).project_spec(),
            old(self).cursor() <= final(self).cursor() <= bus.history().len(),
            match r {
                StreamStep::Event(e) => {
                    &&& e.project_spec() == old(self).project_spec()
                    &&& old(self).cursor() >= bus.dropped()
                    &&& final(self).cursor() >= old(self).cursor() + 1
                    &&& e == bus.history()[final(self).cursor() - 1]
                    &&& project_events(
                        bus.history().subrange(old(self).cursor(), final(self).cursor()),
                        old(self).project_spec(),
                    ) =~= seq![e]
                },
                StreamStep::KeepAlive => {
                    &&& old(self).cursor() >= bus.dropped()
                    &&& final(self).cursor() == bus.history().len()
                    &&& project_events(
                        bus.history().subrange(old(self).cursor(), final(self).cursor()),
                        old(self).project_spec(),
                    ) =~= Seq::<RealtimeEvent>::empty()
                },
                StreamStep::Lagged => {
                    &&& old(self).cursor() < bus.dropped()
                    &&& final(self).cursor() == old(self).cursor()
                },
            },
    {
        loop
            invariant
                bus.wf(),
                self.project_id == old(self).project_spec(),
                old(self).cursor() <= self.sub.cursor() <= bus.history().len(),
                self.sub.cursor() > old(self).cursor() ==> old(self).cursor() >= bus.dropped(),
                project_events(
                    bus.history().subrange(old(self).cursor(), self.sub.cursor()),
                    self.project_id,
                ) =~= Seq::<RealtimeEvent>::empty(),
            decreases bus.history().len() - self.sub.cursor(),
        {
            let ghost prev = self.sub.cursor();
            match bus.recv(&mut self.sub) {
                Recv::Lagged => {
                    return StreamStep::Lagged;
                },
                Recv::Empty => {
                    return StreamStep::KeepAlive;
                },
                Recv::Event(e) => {
                    proof {
                        let h = bus.history();
                        assert(h.subrange(old(self).cursor(), self.sub.cursor())
                            =~= h.subrange(old(self).cursor(), prev) + seq![h[prev]]);
                        lemma_project_events_concat(
                            h.subrange(old(self).cursor(), prev),
                            seq![h[prev]],
                            self.project_id,
                        );
                        lemma_project_events_singleton(h[prev], self.project_id);
                    }
                    if e.project() == self.project_id {
                        return StreamStep::Event(e);
                    }
                },
            }
        }
    }
}

} // verus!
