//! The server's decisions: what it does on binding its socket, on each
//! connection's payload, and on shutdown. Whoever drives it performs the
//! actions it returns and hands back what happened.

use vstd::prelude::*;
use vstd::utf8::{decode_utf8, valid_utf8};

use crate::cache::{apply_updates, CacheModel};
use crate::config::{OutputFormat, ServerInput};
use crate::wire::{
    get_bar_update, lemma_lines_after_the_second_are_ignored, lemma_single_line_has_empty_value,
    line, lower_of, BarUpdate,
};

verus! {

/// Why one connection's update was dropped.
#[derive(Debug, Clone, Copy, PartialEq, Eq)]
pub enum ServerRuntime {
    /// The connection could not be read to its end.
    StreamRead,
    /// The payload is not UTF-8 text.
    StringParse,
}

/// Relies on `std::str::from_utf8`: the text that `bytes` encode, if they
/// are valid UTF-8.
#[verifier::external_body]
fn utf8_text(bytes: &[u8]) -> (r: Option<String>)
    ensures
        r is Some <==> valid_utf8(bytes@),
        r matches Some(t) ==> t@ == decode_utf8(bytes@),
{
    std::str::from_utf8(bytes).ok().map(|t| t.to_owned())
}

/// The slot name and value that `payload` carries, if it is UTF-8 text.
pub open spec fn payload_update(payload: Seq<u8>) -> Option<(Seq<char>, Seq<char>)> {
    if valid_utf8(payload) {
        let t = decode_utf8(payload);
        Some((lower_of(line(t, 0)), line(t, 1)))
    } else {
        None
    }
}

/// Reads the update that one connection's whole payload carries.
pub fn parse_payload(payload: &[u8]) -> (r: Result<BarUpdate, ServerRuntime>)
    ensures
        match payload_update(payload@) {
            Some((k, v)) => r matches Ok(u) && u.key@ == k && u.value@ == v,
            None => r == Err::<BarUpdate, ServerRuntime>(ServerRuntime::StringParse),
        },
{
    match utf8_text(payload) {
        Some(text) => Ok(get_bar_update(text.as_str())),
        None => Err(ServerRuntime::StringParse),
    }
}

/// Where a server stands in its life.
#[derive(Debug, Clone, Copy, PartialEq, Eq)]
pub enum Phase {
    /// Its socket is not bound yet.
    Starting,
    /// It accepts updates.
    Serving,
    /// It has stopped, for good.
    Stopped,
}

/// What happened to a server.
pub enum Event {
    /// Its socket was bound.
    Bound,
    /// Its socket could not be bound.
    BindFailed,
    /// A connection was read to its end and carried these bytes.
    Received(Vec<u8>),
    /// A connection could not be read.
    ReadFailed,
    /// It was asked to shut down.
    Shutdown,
}

/// The abstract form of an [`Event`].
pub enum EventModel {
    Bound,
    BindFailed,
    Received(Seq<u8>),
    ReadFailed,
    Shutdown,
}

impl View for Event {
    type V = EventModel;

    open spec fn view(&self) -> EventModel {
        match self {
            Event::Bound => EventModel::Bound,
            Event::BindFailed => EventModel::BindFailed,
            Event::Received(b) => EventModel::Received(b@),
            Event::ReadFailed => EventModel::ReadFailed,
            Event::Shutdown => EventModel::Shutdown,
        }
    }
}

/// What a server asks its driver to do.
#[derive(Debug)]
pub enum Action {
    /// Show this status line on the sink.
    Render(String),
    /// Log that an update was dropped, and go on serving.
    Report(ServerRuntime),
    /// Give up starting: the socket is taken.
    Abort,
    /// Stop accepting and release the socket.
    Close,
    /// Nothing.
    Idle,
}

/// The abstract form of an [`Action`].
pub enum ActionModel {
    Render(Seq<char>),
    Report(ServerRuntime),
    Abort,
    Close,
    Idle,
}

impl View for Action {
    type V = ActionModel;

    open spec fn view(&self) -> ActionModel {
        match self {
            Action::Render(s) => ActionModel::Render(s@),
            Action::Report(e) => ActionModel::Report(*e),
            Action::Abort => ActionModel::Abort,
            Action::Close => ActionModel::Close,
            Action::Idle => ActionModel::Idle,
        }
    }
}

/// The abstract state of a server.
pub struct ServerModel {
    pub phase: Phase,
    pub cache: CacheModel,
}

/// The state and action that follow `event` in state `s`.
pub open spec fn next(s: ServerModel, event: EventModel) -> (ServerModel, ActionModel) {
    match s.phase {
        Phase::Starting => match event {
            EventModel::Bound => (
                ServerModel { phase: Phase::Serving, ..s },
                ActionModel::Render(s.cache.status()),
            ),
            EventModel::BindFailed => (
                ServerModel { phase: Phase::Stopped, ..s },
                ActionModel::Abort,
            ),
            _ => (s, ActionModel::Idle),
        },
        Phase::Serving => match event {
            EventModel::Received(p) => match payload_update(p) {
                Some((k, v)) => {
                    let c = s.cache.updated(k, v);
                    (ServerModel { cache: c, ..s }, ActionModel::Render(c.status()))
                },
                None => (s, ActionModel::Report(ServerRuntime::StringParse)),
            },
            EventModel::ReadFailed => (s, ActionModel::Report(ServerRuntime::StreamRead)),
            EventModel::Shutdown => (ServerModel { phase: Phase::Stopped, ..s }, ActionModel::Close),
            _ => (s, ActionModel::Idle),
        },
        Phase::Stopped => (s, ActionModel::Idle),
    }
}

/// The state after `events`, from `s`, and the action taken on each.
pub open spec fn run(s: ServerModel, events: Seq<EventModel>) -> (ServerModel, Seq<ActionModel>)
    decreases events.len(),
{
    if events.len() == 0 {
        (s, Seq::empty())
    } else {
        let (s1, acts) = run(s, events.drop_last());
        let (s2, a) = next(s1, events.last());
        (s2, acts.push(a))
    }
}

/// A server that cannot bind its socket aborts at once, and serves nothing
/// after: whatever events follow, it renders nothing and its slots keep
/// their values.
pub proof fn lemma_bind_failure_serves_nothing(s: ServerModel, later: Seq<EventModel>)
    requires
        s.phase == Phase::Starting,
    ensures
        next(s, EventModel::BindFailed).1 == ActionModel::Abort,
        next(s, EventModel::BindFailed).0.phase == Phase::Stopped,
        run(next(s, EventModel::BindFailed).0, later).0 == next(s, EventModel::BindFailed).0,
        forall|i: int|
            0 <= i < later.len() ==> #[trigger] run(next(s, EventModel::BindFailed).0, later).1[i]
                == ActionModel::Idle,
{
    lemma_stopped_stays_idle(next(s, EventModel::BindFailed).0, later);
}

/// A stopped server stays as it is and does nothing, whatever happens.
pub proof fn lemma_stopped_stays_idle(s: ServerModel, events: Seq<EventModel>)
    requires
        s.phase == Phase::Stopped,
    ensures
        run(s, events).0 == s,
        run(s, events).1.len() == events.len(),
        forall|i: int| 0 <= i < events.len() ==> #[trigger] run(s, events).1[i] == ActionModel::Idle,
    decreases events.len(),
{
    if events.len() > 0 {
        lemma_stopped_stays_idle(s, events.drop_last());
    }
}

/// The slot updates that `events` carry, in order: one for each received
/// payload that is text.
pub open spec fn received_updates(events: Seq<EventModel>) -> Seq<(Seq<char>, Seq<char>)>
    decreases events.len(),
{
    if events.len() == 0 {
        Seq::empty()
    } else {
        let prev = received_updates(events.drop_last());
        match events.last() {
            EventModel::Received(p) => match payload_update(p) {
                Some(u) => prev.push(u),
                None => prev,
            },
            _ => prev,
        }
    }
}

/// A serving server applies, in arrival order, every update that the
/// connections it reads carry, and keeps serving; a connection that cannot
/// be read, or whose payload is not text, changes nothing.
pub proof fn lemma_serving_applies_updates(s: ServerModel, events: Seq<EventModel>)
    requires
        s.phase == Phase::Serving,
        forall|i: int|
            0 <= i < events.len() ==> (#[trigger] events[i] is Received || events[i] is ReadFailed),
    ensures
        run(s, events).0.phase == Phase::Serving,
        run(s, events).0.cache == apply_updates(s.cache, received_updates(events)),
    decreases events.len(),
{
    if events.len() > 0 {
        let prev = events.drop_last();
        assert forall|i: int| 0 <= i < prev.len() implies (#[trigger] prev[i] is Received
            || prev[i] is ReadFailed) by {
            assert(prev[i] == events[i]);
        }
        lemma_serving_applies_updates(s, prev);
        assert(events[events.len() - 1] is Received || events[events.len() - 1] is ReadFailed);
        let ups = received_updates(prev);
        match events.last() {
            EventModel::Received(p) => match payload_update(p) {
                Some(u) => {
                    assert(ups.push(u).drop_last() =~= ups);
                },
                None => {},
            },
            _ => {},
        }
    }
}

/// A serving server that receives a payload whose text is a slot name, a
/// value and further lines sets that slot to that value, ignoring the
/// further lines, and renders the new status line.
pub proof fn lemma_payload_with_extra_lines(
    s: ServerModel,
    payload: Seq<u8>,
    name: Seq<char>,
    value: Seq<char>,
    rest: Seq<char>,
)
    requires
        s.phase == Phase::Serving,
        valid_utf8(payload),
        decode_utf8(payload) == name + seq!['\n'] + value + seq!['\n'] + rest,
        !name.contains('\n'),
        !value.contains('\n'),
        name.len() == 0 || name.last() != '\r',
        value.len() == 0 || value.last() != '\r',
    ensures
        payload_update(payload) == Some((lower_of(name), value)),
        next(s, EventModel::Received(payload)).0 == (ServerModel {
            cache: s.cache.updated(lower_of(name), value),
            ..s
        }),
        next(s, EventModel::Received(payload)).1 == ActionModel::Render(
            s.cache.updated(lower_of(name), value).status(),
        ),
{
    lemma_lines_after_the_second_are_ignored(name, value, rest);
}

/// A serving server that receives a payload of one line, a slot name with
/// no `'\n'`, sets that slot to the empty value rather than failing.
pub proof fn lemma_payload_of_one_line(s: ServerModel, payload: Seq<u8>, name: Seq<char>)
    requires
        s.phase == Phase::Serving,
        valid_utf8(payload),
        decode_utf8(payload) == name,
        !name.contains('\n'),
    ensures
        payload_update(payload) == Some((lower_of(name), Seq::<char>::empty())),
        next(s, EventModel::Received(payload)).0 == (ServerModel {
            cache: s.cache.updated(lower_of(name), Seq::empty()),
            ..s
        }),
        next(s, EventModel::Received(payload)).1 == ActionModel::Render(
            s.cache.updated(lower_of(name), Seq::empty()).status(),
        ),
{
    lemma_single_line_has_empty_value(name);
}

/// A server: its input and where it stands.
pub struct Server {
    pub input: ServerInput,
    pub phase: Phase,
}

impl View for Server {
    type V = ServerModel;

    open spec fn view(&self) -> ServerModel {
        ServerModel { phase: self.phase, cache: self.input.cache@ }
    }
}

impl Server {
    /// Its cache is well formed.
    pub open spec fn wf(&self) -> bool {
        self.input.cache.wf()
    }

    /// A server that has yet to bind its socket.
    pub fn new(input: ServerInput) -> (r: Server)
        requires
            input.cache.wf(),
        ensures
            r.wf(),
            r@ == (ServerModel { phase: Phase::Starting, cache: input.cache@ }),
            r.input.server_id == input.server_id,
            r.input.output_format == input.output_format,
    {
        Server { input, phase: Phase::Starting }
    }

    /// Where this server's status lines go.
    pub fn output_format(&self) -> (r: OutputFormat)
        ensures
            r == self.input.output_format,
    {
        self.input.output_format
    }

    /// Takes in `event` and returns what the driver must do next.
    pub fn step(&mut self, event: Event) -> (r: Action)
        requires
            old(self).wf(),
        ensures
            final(self).wf(),
            final(self).input.server_id == old(self).input.server_id,
            final(self).input.output_format == old(self).input.output_format,
            (final(self)@, r@) == next(old(self)@, event@),
    {
        match self.phase {
            Phase::Starting => match event {
                Event::Bound => {
                    self.phase = Phase::Serving;
                    Action::Render(self.input.cache.status())
                },
                Event::BindFailed => {
                    self.phase = Phase::Stopped;
                    Action::Abort
                },
                _ => Action::Idle,
            },
            Phase::Serving => match event {
                Event::Received(payload) => match parse_payload(payload.as_slice()) {
                    Ok(update) => {
                        self.input.cache.update(update.key, update.value);
                        Action::Render(self.input.cache.status())
                    },
                    Err(e) => Action::Report(e),
                },
                Event::ReadFailed => Action::Report(ServerRuntime::StreamRead),
                Event::Shutdown => {
                    self.phase = Phase::Stopped;
                    Action::Close
                },
                _ => Action::Idle,
            },
            Phase::Stopped => Action::Idle,
        }
    }
}

} // verus!
