use vstd::prelude::*;

verus! {

/// State of one relay pump: which of the two directions has closed. Both
/// flags are monotonic: once a direction closes it never reopens. The pump
/// terminates cleanly exactly when both are set.
#[derive(Clone, Copy, PartialEq, Eq, Structural, Debug)]
pub struct PumpState {
    pub local_closed: bool,
    pub remote_closed: bool,
}

impl PumpState {
    /// A freshly started pump has both directions open.
    pub fn new() -> (s: PumpState)
        ensures
            !s.local_closed,
            !s.remote_closed,
    {
        PumpState { local_closed: false, remote_closed: false }
    }
}

/// One event a relay pump can observe from its two sources.
pub enum PumpEvent {
    /// The local stream yielded these bytes (a read of more than zero bytes).
    LocalData(Vec<u8>),
    /// The local stream reached end of file: the peer closed its write side.
    LocalEof,
    /// Reading the local stream failed.
    LocalReadError,
    /// A data message arrived on the channel.
    RemoteData(Vec<u8>),
    /// The channel signalled end of file.
    RemoteEof,
    /// The channel delivered an exit status.
    RemoteExit,
    /// A window adjustment or any other channel message kind.
    RemoteOther,
    /// Both sources are exhausted: nothing further can arrive from either.
    Exhausted,
}

/// One action the pump instructs its driver to perform. A driver that fails
/// to perform an action ends the pump immediately, without a graceful
/// shutdown.
pub enum PumpAction {
    /// Forward these bytes to the remote side as channel data.
    SendToRemote(Vec<u8>),
    /// Signal end of file on the channel.
    SendEofToRemote,
    /// Write these bytes to the local stream.
    WriteToLocal(Vec<u8>),
    /// Shut down the local stream's write side.
    ShutdownLocalWrite,
}

/// The pump's flags after observing one event: a local end of file closes
/// the local direction, a remote end of file or exit status closes the
/// remote direction, and nothing ever reopens a direction.
pub open spec fn spec_step_state(s: PumpState, e: PumpEvent) -> PumpState {
    PumpState {
        local_closed: s.local_closed || e is LocalEof,
        remote_closed: s.remote_closed || e is RemoteEof || e is RemoteExit,
    }
}

/// Whether the pump terminates on observing this event: immediately on a
/// local read error or on exhausted sources, and on a closure event whose
/// opposite direction is already closed.
pub open spec fn spec_step_done(s: PumpState, e: PumpEvent) -> bool {
    ||| e is LocalReadError
    ||| e is Exhausted
    ||| (e is LocalEof && s.remote_closed)
    ||| ((e is RemoteEof || e is RemoteExit) && s.local_closed)
}

/// The bytes an event carries inward from the local stream.
pub open spec fn spec_local_payload(e: PumpEvent) -> Seq<u8> {
    match e {
        PumpEvent::LocalData(d) => d@,
        _ => Seq::empty(),
    }
}

/// The bytes an event carries inward from the channel.
pub open spec fn spec_remote_payload(e: PumpEvent) -> Seq<u8> {
    match e {
        PumpEvent::RemoteData(d) => d@,
        _ => Seq::empty(),
    }
}

/// An owned copy of a borrowed byte buffer, for handing a payload on in an
/// action.
fn copy_bytes(d: &Vec<u8>) -> (c: Vec<u8>)
    ensures
        c@ == d@,
{
    let mut c: Vec<u8> = Vec::new();
    let mut j: usize = 0;
    while j < d.len()
        invariant
            0 <= j <= d@.len(),
            c@ == d@.take(j as int),
        decreases d@.len() - j,
    {
        c.push(d[j]);
        proof {
            assert(d@.take(j as int).push(d@[j as int]) =~= d@.take(j as int + 1));
        }
        j = j + 1;
    }
    proof {
        assert(d@.take(d@.len() as int) =~= d@);
    }
    c
}

/// Advance the pump by one observed event. Returns the action the driver
/// must perform, if any, and whether the pump terminates after this event.
/// The end-of-file signal and the local shutdown are issued even on the
/// event that terminates the pump, matching the shutdown order of the relay.
pub fn pump_step(s: &mut PumpState, e: &PumpEvent) -> (r: (Option<PumpAction>, bool))
    ensures
        *final(s) == spec_step_state(*old(s), *e),
        r.1 == spec_step_done(*old(s), *e),
        match *e {
            PumpEvent::LocalData(d) => r.0 matches Some(PumpAction::SendToRemote(b)) && b@ == d@,
            PumpEvent::LocalEof => r.0 matches Some(PumpAction::SendEofToRemote),
            PumpEvent::LocalReadError => r.0 is None,
            PumpEvent::RemoteData(d) => r.0 matches Some(PumpAction::WriteToLocal(b)) && b@ == d@,
            PumpEvent::RemoteEof => r.0 matches Some(PumpAction::ShutdownLocalWrite),
            PumpEvent::RemoteExit => r.0 is None,
            PumpEvent::RemoteOther => r.0 is None,
            PumpEvent::Exhausted => r.0 is None,
        },
{
    match e {
        PumpEvent::LocalData(d) => (Some(PumpAction::SendToRemote(copy_bytes(d))), false),
        PumpEvent::LocalEof => {
            let done = s.remote_closed;
            s.local_closed = true;
            (Some(PumpAction::SendEofToRemote), done)
        },
        PumpEvent::LocalReadError => (None, true),
        PumpEvent::RemoteData(d) => (Some(PumpAction::WriteToLocal(copy_bytes(d))), false),
        PumpEvent::RemoteEof => {
            let done = s.local_closed;
            s.remote_closed = true;
            (Some(PumpAction::ShutdownLocalWrite), done)
        },
        PumpEvent::RemoteExit => {
            let done = s.local_closed;
            s.remote_closed = true;
            (None, done)
        },
        PumpEvent::RemoteOther => (None, false),
        PumpEvent::Exhausted => (None, true),
    }
}

/// The outcome of running a pump over a sequence of events.
pub struct PumpRun {
    /// The flags after the last consumed event.
    pub state: PumpState,
    /// All bytes forwarded to the remote side, concatenated in order.
    pub to_remote: Seq<u8>,
    /// All bytes written to the local stream, concatenated in order.
    pub to_local: Seq<u8>,
    /// How many events the pump consumed before terminating (all of them if
    /// it did not terminate).
    pub used: int,
    /// Whether the pump terminated.
    pub stopped: bool,
}

/// Run the pump over a whole event sequence, stopping at the first event
/// whose step terminates it.
pub open spec fn spec_pump_run(s: PumpState, events: Seq<PumpEvent>) -> PumpRun
    decreases events.len(),
{
    if events.len() == 0 {
        PumpRun {
            state: s,
            to_remote: Seq::empty(),
            to_local: Seq::empty(),
            used: 0,
            stopped: false,
        }
    } else {
        let e = events[0];
        let s2 = spec_step_state(s, e);
        if spec_step_done(s, e) {
            PumpRun {
                state: s2,
                to_remote: spec_local_payload(e),
                to_local: spec_remote_payload(e),
                used: 1,
                stopped: true,
            }
        } else {
            let rest = spec_pump_run(s2, events.drop_first());
            PumpRun {
                state: rest.state,
                to_remote: spec_local_payload(e) + rest.to_remote,
                to_local: spec_remote_payload(e) + rest.to_local,
                used: 1 + rest.used,
                stopped: rest.stopped,
            }
        }
    }
}

/// Events on which the pump gives up early rather than tracking closure:
/// a failed local read or exhausted sources.
pub open spec fn spec_is_abort(e: PumpEvent) -> bool {
    e is LocalReadError || e is Exhausted
}

pub open spec fn spec_no_aborts(events: Seq<PumpEvent>) -> bool {
    forall|i: int| 0 <= i < events.len() ==> !spec_is_abort(#[trigger] events[i])
}

/// Whether the event closes the local direction.
pub open spec fn spec_closes_local(e: PumpEvent) -> bool {
    e is LocalEof
}

/// Whether the event closes the remote direction.
pub open spec fn spec_closes_remote(e: PumpEvent) -> bool {
    e is RemoteEof || e is RemoteExit
}

pub open spec fn spec_has_local_close(events: Seq<PumpEvent>) -> bool {
    exists|i: int| 0 <= i < events.len() && spec_closes_local(#[trigger] events[i])
}

pub open spec fn spec_has_remote_close(events: Seq<PumpEvent>) -> bool {
    exists|i: int| 0 <= i < events.len() && spec_closes_remote(#[trigger] events[i])
}

/// Once a direction is closed it stays closed, over any run.
pub proof fn lemma_pump_flags_monotonic(s: PumpState, events: Seq<PumpEvent>)
    ensures
        s.local_closed ==> spec_pump_run(s, events).state.local_closed,
        s.remote_closed ==> spec_pump_run(s, events).state.remote_closed,
    decreases events.len(),
{
    if events.len() > 0 {
        let e = events[0];
        if !spec_step_done(s, e) {
            lemma_pump_flags_monotonic(spec_step_state(s, e), events.drop_first());
        }
    }
}

/// The pump terminates only after both directions are closed, as long as no
/// local read error occurs and the sources are not exhausted early.
pub proof fn lemma_pump_stops_only_after_both_closed(s: PumpState, events: Seq<PumpEvent>)
    requires
        spec_no_aborts(events),
        spec_pump_run(s, events).stopped,
    ensures
        spec_pump_run(s, events).state.local_closed,
        spec_pump_run(s, events).state.remote_closed,
    decreases events.len(),
{
    let e = events[0];
    if spec_step_done(s, e) {
        assert(!spec_is_abort(e));
    } else {
        assert(forall|i: int|
            0 <= i < events.drop_first().len() ==> !spec_is_abort(
                #[trigger] events.drop_first()[i],
            ));
        lemma_pump_stops_only_after_both_closed(spec_step_state(s, e), events.drop_first());
    }
}

/// Helper: with the local direction already closed, any remote closure in the
/// events terminates the pump.
proof fn lemma_pump_stops_given_local_closed(s: PumpState, events: Seq<PumpEvent>)
    requires
        s.local_closed,
        spec_has_remote_close(events),
    ensures
        spec_pump_run(s, events).stopped,
    decreases events.len(),
{
    let e = events[0];
    if !spec_step_done(s, e) {
        assert(!spec_closes_remote(e));
        let w = choose|i: int| 0 <= i < events.len() && spec_closes_remote(#[trigger] events[i]);
        assert(events.drop_first()[w - 1] == events[w]);
        assert(spec_has_remote_close(events.drop_first()));
        lemma_pump_stops_given_local_closed(spec_step_state(s, e), events.drop_first());
    }
}

/// Helper: with the remote direction already closed, any local closure in the
/// events terminates the pump.
proof fn lemma_pump_stops_given_remote_closed(s: PumpState, events: Seq<PumpEvent>)
    requires
        s.remote_closed,
        spec_has_local_close(events),
    ensures
        spec_pump_run(s, events).stopped,
    decreases events.len(),
{
    let e = events[0];
    if !spec_step_done(s, e) {
        assert(!spec_closes_local(e));
        let w = choose|i: int| 0 <= i < events.len() && spec_closes_local(#[trigger] events[i]);
        assert(events.drop_first()[w - 1] == events[w]);
        assert(spec_has_local_close(events.drop_first()));
        lemma_pump_stops_given_remote_closed(spec_step_state(s, e), events.drop_first());
    }
}

/// Whatever order the two sides close in, once the events contain a local
/// closure and a remote closure the pump has terminated.
pub proof fn lemma_pump_stops_after_both_closed(s: PumpState, events: Seq<PumpEvent>)
    requires
        spec_has_local_close(events),
        spec_has_remote_close(events),
    ensures
        spec_pump_run(s, events).stopped,
    decreases events.len(),
{
    let e = events[0];
    if !spec_step_done(s, e) {
        let s2 = spec_step_state(s, e);
        if spec_closes_local(e) {
            let w = choose|i: int|
                0 <= i < events.len() && spec_closes_remote(#[trigger] events[i]);
            assert(events.drop_first()[w - 1] == events[w]);
            assert(spec_has_remote_close(events.drop_first()));
            lemma_pump_stops_given_local_closed(s2, events.drop_first());
        } else if spec_closes_remote(e) {
            let w = choose|i: int|
                0 <= i < events.len() && spec_closes_local(#[trigger] events[i]);
            assert(events.drop_first()[w - 1] == events[w]);
            assert(spec_has_local_close(events.drop_first()));
            lemma_pump_stops_given_remote_closed(s2, events.drop_first());
        } else {
            let wl = choose|i: int|
                0 <= i < events.len() && spec_closes_local(#[trigger] events[i]);
            let wr = choose|i: int|
                0 <= i < events.len() && spec_closes_remote(#[trigger] events[i]);
            assert(events.drop_first()[wl - 1] == events[wl]);
            assert(events.drop_first()[wr - 1] == events[wr]);
            assert(spec_has_local_close(events.drop_first()));
            assert(spec_has_remote_close(events.drop_first()));
            lemma_pump_stops_after_both_closed(s2, events.drop_first());
        }
    }
}

/// The outcome of driving a pump over a recorded event sequence.
pub struct PumpTrace {
    /// The flags after the last consumed event.
    pub state: PumpState,
    /// All bytes forwarded to the remote side, concatenated in order.
    pub to_remote: Vec<u8>,
    /// All bytes written to the local stream, concatenated in order.
    pub to_local: Vec<u8>,
    /// How many events the pump consumed.
    pub used: usize,
    /// Whether the pump terminated.
    pub stopped: bool,
}

/// Drive the pump over a recorded event sequence, as the relay's event loop
/// does over its two live sources: apply each event in order, collecting the
/// bytes that the actions carry in each direction, until a step terminates
/// the pump.
pub fn run_pump(start: PumpState, events: Vec<PumpEvent>) -> (t: PumpTrace)
    ensures
        t.state == spec_pump_run(start, events@).state,
        t.to_remote@ == spec_pump_run(start, events@).to_remote,
        t.to_local@ == spec_pump_run(start, events@).to_local,
        t.used == spec_pump_run(start, events@).used,
        t.stopped == spec_pump_run(start, events@).stopped,
{
    let mut s = start;
    let mut to_remote: Vec<u8> = Vec::new();
    let mut to_local: Vec<u8> = Vec::new();
    let n = events.len();
    let mut i: usize = 0;
    let ghost run_all = spec_pump_run(start, events@);
    proof {
        assert(events@.skip(0) =~= events@);
        assert(Seq::<u8>::empty() + run_all.to_remote =~= run_all.to_remote);
        assert(Seq::<u8>::empty() + run_all.to_local =~= run_all.to_local);
    }
    while i < n
        invariant
            n == events@.len(),
            0 <= i <= n,
            run_all == spec_pump_run(start, events@),
            run_all.state == spec_pump_run(s, events@.skip(i as int)).state,
            run_all.to_remote == to_remote@ + spec_pump_run(s, events@.skip(i as int)).to_remote,
            run_all.to_local == to_local@ + spec_pump_run(s, events@.skip(i as int)).to_local,
            run_all.used == i + spec_pump_run(s, events@.skip(i as int)).used,
            run_all.stopped == spec_pump_run(s, events@.skip(i as int)).stopped,
        decreases n - i,
    {
        let ghost pre = s;
        let ghost ei = events@[i as int];
        let ghost run_i = spec_pump_run(pre, events@.skip(i as int));
        let ghost tr0 = to_remote@;
        let ghost tl0 = to_local@;
        proof {
            assert(events@.skip(i as int)[0] == ei);
            assert(events@.skip(i as int).drop_first() =~= events@.skip(i as int + 1));
        }
        let (action, done) = pump_step(&mut s, &events[i]);
        match action {
            Some(PumpAction::SendToRemote(mut b)) => {
                to_remote.append(&mut b);
            },
            Some(PumpAction::WriteToLocal(mut b)) => {
                to_local.append(&mut b);
            },
            Some(PumpAction::SendEofToRemote) => {},
            Some(PumpAction::ShutdownLocalWrite) => {},
            None => {},
        }
        proof {
            assert(to_remote@ =~= tr0 + spec_local_payload(ei));
            assert(to_local@ =~= tl0 + spec_remote_payload(ei));
        }
        if done {
            proof {
                assert(run_i.state == s && run_i.used == 1 && run_i.stopped);
                assert(run_i.to_remote == spec_local_payload(ei));
                assert(run_i.to_local == spec_remote_payload(ei));
            }
            return PumpTrace { state: s, to_remote, to_local, used: i + 1, stopped: true };
        }
        proof {
            let rest = spec_pump_run(s, events@.skip(i as int + 1));
            assert(run_i.to_remote == spec_local_payload(ei) + rest.to_remote);
            assert(run_i.to_local == spec_remote_payload(ei) + rest.to_local);
            assert((tr0 + spec_local_payload(ei)) + rest.to_remote =~= tr0 + (spec_local_payload(
                ei,
            ) + rest.to_remote));
            assert((tl0 + spec_remote_payload(ei)) + rest.to_local =~= tl0 + (spec_remote_payload(
                ei,
            ) + rest.to_local));
        }
        i = i + 1;
    }
    proof {
        assert(events@.skip(n as int) =~= Seq::<PumpEvent>::empty());
        assert(to_remote@ + Seq::<u8>::empty() =~= to_remote@);
        assert(to_local@ + Seq::<u8>::empty() =~= to_local@);
    }
    PumpTrace { state: s, to_remote, to_local, used: n, stopped: false }
}

/// The bytes read from the local stream over a sequence of events,
/// concatenated in order.
pub open spec fn spec_local_bytes(events: Seq<PumpEvent>) -> Seq<u8>
    decreases events.len(),
{
    if events.len() == 0 {
        Seq::empty()
    } else {
        spec_local_payload(events[0]) + spec_local_bytes(events.drop_first())
    }
}

/// The bytes the channel delivered over a sequence of events, concatenated
/// in order.
pub open spec fn spec_remote_bytes(events: Seq<PumpEvent>) -> Seq<u8>
    decreases events.len(),
{
    if events.len() == 0 {
        Seq::empty()
    } else {
        spec_remote_payload(events[0]) + spec_remote_bytes(events.drop_first())
    }
}

/// No byte is lost: over the events the pump consumed, the bytes it forwarded
/// to the remote side are exactly the local reads, in order, and the bytes it
/// wrote locally are exactly the channel's data, in order. If the pump did
/// not terminate it consumed every event.
pub proof fn lemma_pump_no_data_loss(s: PumpState, events: Seq<PumpEvent>)
    ensures
        0 <= spec_pump_run(s, events).used <= events.len(),
        spec_pump_run(s, events).to_remote == spec_local_bytes(
            events.take(spec_pump_run(s, events).used),
        ),
        spec_pump_run(s, events).to_local == spec_remote_bytes(
            events.take(spec_pump_run(s, events).used),
        ),
        !spec_pump_run(s, events).stopped ==> spec_pump_run(s, events).used == events.len(),
    decreases events.len(),
{
    let r = spec_pump_run(s, events);
    if events.len() == 0 {
        assert(events.take(0) =~= events);
    } else {
        let e = events[0];
        if spec_step_done(s, e) {
            let t = events.take(1);
            assert(t[0] == e);
            assert(t.drop_first() =~= Seq::<PumpEvent>::empty());
            assert(spec_local_bytes(t) == spec_local_payload(e) + spec_local_bytes(
                Seq::<PumpEvent>::empty(),
            ));
            assert(spec_local_bytes(Seq::<PumpEvent>::empty()) == Seq::<u8>::empty());
            assert(spec_local_payload(e) + Seq::<u8>::empty() =~= spec_local_payload(e));
            assert(spec_remote_bytes(t) == spec_remote_payload(e) + spec_remote_bytes(
                Seq::<PumpEvent>::empty(),
            ));
            assert(spec_remote_bytes(Seq::<PumpEvent>::empty()) == Seq::<u8>::empty());
            assert(spec_remote_payload(e) + Seq::<u8>::empty() =~= spec_remote_payload(e));
        } else {
            let s2 = spec_step_state(s, e);
            let rest = spec_pump_run(s2, events.drop_first());
            lemma_pump_no_data_loss(s2, events.drop_first());
            let t = events.take(1 + rest.used);
            assert(t[0] == e);
            assert(t.drop_first() =~= events.drop_first().take(rest.used));
            assert(spec_local_bytes(t) == spec_local_payload(e) + spec_local_bytes(
                t.drop_first(),
            ));
            assert(spec_remote_bytes(t) == spec_remote_payload(e) + spec_remote_bytes(
                t.drop_first(),
            ));
        }
    }
}

/// The relay's round-trip guarantee, end to end. Starting with both
/// directions open, with no local read error and no early exhaustion, a pump
/// whose events close each side, in either order, terminates; it terminates
/// only with both directions closed, after observing both closures; and over
/// the events it consumed it forwarded exactly the bytes each side produced,
/// in order, so nothing sent before a closure is lost.
pub proof fn lemma_pump_round_trip(s: PumpState, events: Seq<PumpEvent>)
    requires
        !s.local_closed,
        !s.remote_closed,
        spec_no_aborts(events),
        spec_has_local_close(events),
        spec_has_remote_close(events),
    ensures
        spec_pump_run(s, events).stopped,
        spec_pump_run(s, events).state.local_closed,
        spec_pump_run(s, events).state.remote_closed,
        spec_has_local_close(events.take(spec_pump_run(s, events).used)),
        spec_has_remote_close(events.take(spec_pump_run(s, events).used)),
        spec_pump_run(s, events).to_remote == spec_local_bytes(
            events.take(spec_pump_run(s, events).used),
        ),
        spec_pump_run(s, events).to_local == spec_remote_bytes(
            events.take(spec_pump_run(s, events).used),
        ),
{
    lemma_pump_stops_after_both_closed(s, events);
    lemma_pump_stops_only_after_both_closed(s, events);
    lemma_pump_closure_needs_event(s, events);
    lemma_pump_no_data_loss(s, events);
}

/// A closed flag in the final state was either set at the start or set by a
/// closure event the pump actually consumed: termination comes only after
/// observing the closures.
pub proof fn lemma_pump_closure_needs_event(s: PumpState, events: Seq<PumpEvent>)
    ensures
        spec_pump_run(s, events).state.local_closed ==> s.local_closed || spec_has_local_close(
            events.take(spec_pump_run(s, events).used),
        ),
        spec_pump_run(s, events).state.remote_closed ==> s.remote_closed || spec_has_remote_close(
            events.take(spec_pump_run(s, events).used),
        ),
    decreases events.len(),
{
    let r = spec_pump_run(s, events);
    if events.len() > 0 {
        let e = events[0];
        if spec_step_done(s, e) {
            let t = events.take(1);
            assert(t[0] == e);
            if spec_closes_local(e) {
                assert(spec_has_local_close(t));
            }
            if spec_closes_remote(e) {
                assert(spec_has_remote_close(t));
            }
        } else {
            let s2 = spec_step_state(s, e);
            let rest = spec_pump_run(s2, events.drop_first());
            lemma_pump_closure_needs_event(s2, events.drop_first());
            let t = events.take(1 + rest.used);
            lemma_pump_no_data_loss(s2, events.drop_first());
            assert(t[0] == e);
            assert(t.drop_first() =~= events.drop_first().take(rest.used));
            if spec_closes_local(e) {
                assert(spec_has_local_close(t));
            }
            if spec_closes_remote(e) {
                assert(spec_has_remote_close(t));
            }
            assert forall|i: int|
                0 <= i < t.drop_first().len() && spec_closes_local(
                    #[trigger] t.drop_first()[i],
                ) implies spec_has_local_close(t) by {
                assert(t[i + 1] == t.drop_first()[i]);
            }
            assert forall|i: int|
                0 <= i < t.drop_first().len() && spec_closes_remote(
                    #[trigger] t.drop_first()[i],
                ) implies spec_has_remote_close(t) by {
                assert(t[i + 1] == t.drop_first()[i]);
            }
        }
    }
}

} // verus!
