//! The client side: the connection state machine that discovers the remote
//! camera's handle, the engine that keeps at most one update in flight per
//! tracked object, and the requests that the client sends.
use vstd::prelude::*;
use vstd::string::StringExecFns;
use crate::json::{Json, member, member_of, read_u64, u64_at};
use crate::protocol::VerbCall;
use crate::store::Component;

verus! {

/// Where the client is in connecting to the remote camera.
#[derive(Clone, Copy, Debug, PartialEq, Eq, Structural)]
pub enum RemoteConnectionState {
    Disconnected,
    Connecting,
    Checking,
    Connected,
}

/// Local input activity starts a connection attempt, unless a discovery
/// request is still running.
pub fn on_input(state: RemoteConnectionState, activity: bool, discovery_running: bool) -> (r:
    RemoteConnectionState)
    ensures
        r == (if state == RemoteConnectionState::Disconnected && activity && !discovery_running {
            RemoteConnectionState::Connecting
        } else {
            state
        }),
{
    match state {
        RemoteConnectionState::Disconnected => {
            if activity && !discovery_running {
                RemoteConnectionState::Connecting
            } else {
                state
            }
        },
        _ => state,
    }
}

/// A discovery request may be sent only while connecting, and only when
/// none is in flight.
pub fn should_discover(state: RemoteConnectionState, discovery_running: bool) -> (r: bool)
    ensures
        r == (state == RemoteConnectionState::Connecting && !discovery_running),
{
    match state {
        RemoteConnectionState::Connecting => !discovery_running,
        _ => false,
    }
}

/// Once the discovery request has been sent, the client checks for its
/// answer.
pub fn on_discovery_sent(state: RemoteConnectionState, sent: bool) -> (r: RemoteConnectionState)
    ensures
        r == (if state == RemoteConnectionState::Connecting && sent {
            RemoteConnectionState::Checking
        } else {
            state
        }),
{
    match state {
        RemoteConnectionState::Connecting => {
            if sent {
                RemoteConnectionState::Checking
            } else {
                state
            }
        },
        _ => state,
    }
}

/// When the discovery request has completed, the client is connected if a
/// handle was found and disconnected otherwise, ready to retry.
pub fn on_poll(state: RemoteConnectionState, completed: bool, handle: Option<u64>) -> (r:
    RemoteConnectionState)
    ensures
        r == (if state == RemoteConnectionState::Checking && completed {
            if handle is Some {
                RemoteConnectionState::Connected
            } else {
                RemoteConnectionState::Disconnected
            }
        } else {
            state
        }),
{
    match state {
        RemoteConnectionState::Checking => {
            if !completed {
                state
            } else if handle.is_some() {
                RemoteConnectionState::Connected
            } else {
                RemoteConnectionState::Disconnected
            }
        },
        _ => state,
    }
}

/// The markers of one tracked object: an update is in flight (`running`),
/// and a change arrived meanwhile that is not sent yet (`pending`).
#[derive(Clone, Copy, Debug, PartialEq, Eq, Structural)]
pub struct SyncMarkers {
    pub running: bool,
    pub pending: bool,
}

/// One tick for one tracked object: the markers afterwards, and whether an
/// update of the current local value is sent now. `can_send` says whether
/// an update could go out (a remote handle is known).
pub open spec fn tick_spec(m: SyncMarkers, completed: bool, changed: bool, can_send: bool) -> (
    SyncMarkers,
    bool,
) {
    let running = m.running && !completed;
    let wanted = changed || m.pending;
    if wanted && !running && can_send {
        (SyncMarkers { running: true, pending: false }, true)
    } else if wanted {
        (SyncMarkers { running, pending: true }, false)
    } else {
        (SyncMarkers { running, pending: false }, false)
    }
}

impl SyncMarkers {
    /// No update in flight and none waiting.
    pub fn idle() -> (r: SyncMarkers)
        ensures
            !r.running && !r.pending,
    {
        SyncMarkers { running: false, pending: false }
    }

    /// Runs one tick: `completed` says whether the update in flight has
    /// finished, `changed` whether the local value changed this tick, and
    /// `can_send` whether an update could go out now. Returns whether an
    /// update is to be sent now; when it is not, a wanted update stays
    /// pending.
    pub fn tick(&mut self, completed: bool, changed: bool, can_send: bool) -> (send: bool)
        ensures
            (*final(self), send) == tick_spec(*old(self), completed, changed, can_send),
    {
        let running = self.running && !completed;
        let wanted = changed || self.pending;
        if wanted && !running && can_send {
            self.running = true;
            self.pending = false;
            true
        } else if wanted {
            self.running = running;
            self.pending = true;
            false
        } else {
            self.running = running;
            self.pending = false;
            false
        }
    }
}

/// One tick as seen by a tracked object: whether the update in flight
/// finished, the new local value if it changed, and whether an update could
/// go out.
pub struct SyncTick {
    pub completed: bool,
    pub change: Option<int>,
    pub can_send: bool,
}

/// Runs `ticks` from markers `m` and local value `current`: the markers and
/// the local value afterwards, and the values sent, in order.
pub open spec fn replay(m: SyncMarkers, current: int, ticks: Seq<SyncTick>) -> (SyncMarkers, int, Seq<int>)
    decreases ticks.len(),
{
    if ticks.len() == 0 {
        (m, current, Seq::empty())
    } else {
        let (m1, c1, sent) = replay(m, current, ticks.drop_last());
        let t = ticks.last();
        let c2 = match t.change {
            Some(v) => v,
            None => c1,
        };
        let (m2, send) = tick_spec(m1, t.completed, t.change is Some, t.can_send);
        (m2, c2, if send { sent.push(c2) } else { sent })
    }
}

/// While an update is in flight, any number of changes send nothing and
/// leave the object marked pending with the last value.
proof fn lemma_changes_while_running(m: SyncMarkers, current: int, ticks: Seq<SyncTick>)
    requires
        m.running,
        ticks.len() > 0,
        forall|i: int| 0 <= i < ticks.len() ==> !(#[trigger] ticks[i]).completed && ticks[i].change is Some,
    ensures
        replay(m, current, ticks).0 == (SyncMarkers { running: true, pending: true }),
        replay(m, current, ticks).1 == ticks.last().change->0,
        replay(m, current, ticks).2.len() == 0,
    decreases ticks.len(),
{
    let d = ticks.drop_last();
    if ticks.len() > 1 {
        assert forall|i: int| 0 <= i < d.len() implies !(#[trigger] d[i]).completed
            && d[i].change is Some by {
            assert(d[i] == ticks[i]);
        }
        lemma_changes_while_running(m, current, d);
    } else {
        assert(d =~= Seq::<SyncTick>::empty());
        assert(replay(m, current, d) == (m, current, Seq::<int>::empty()));
    }
    let t = ticks[ticks.len() - 1];
    assert(!t.completed && t.change is Some);
    let m1 = replay(m, current, d).0;
    assert(m1.running);
    assert(tick_spec(m1, t.completed, true, t.can_send) == (SyncMarkers { running: true, pending: true }, false));
}

/// With an update in flight, N changes before it completes, then its
/// completion: exactly one follow-up update goes out, carrying the last of
/// the N values.
pub proof fn law_coalesced_follow_up(m: SyncMarkers, current: int, changes: Seq<SyncTick>, done: SyncTick)
    requires
        m.running,
        changes.len() > 1,
        forall|i: int| 0 <= i < changes.len() ==> !(#[trigger] changes[i]).completed && changes[i].change is Some,
        done.completed,
        done.change is None,
        done.can_send,
    ensures
        replay(m, current, changes.push(done)).2 == seq![changes.last().change->0],
        !replay(m, current, changes.push(done)).0.pending,
{
    lemma_changes_while_running(m, current, changes);
    assert(changes.push(done).drop_last() =~= changes);
    assert(Seq::<int>::empty().push(changes.last().change->0) =~= seq![changes.last().change->0]);
}

/// With nothing in flight and nothing pending, a local change is sent on
/// the very tick that sees it.
pub proof fn law_idle_change_sends(m: SyncMarkers, current: int, t: SyncTick)
    requires
        !m.running,
        !m.pending,
        t.change is Some,
        t.can_send,
    ensures
        replay(m, current, seq![t]).2 == seq![t.change->0],
        replay(m, current, seq![t]).0.running,
{
    assert(seq![t].drop_last() =~= Seq::<SyncTick>::empty());
    assert(replay(m, current, seq![t].drop_last()) == (m, current, Seq::<int>::empty()));
    assert(Seq::<int>::empty().push(t.change->0) =~= seq![t.change->0]);
}

/// A change that cannot be sent marks nothing as in flight: it stays
/// pending, to go out on a later tick that can send.
pub proof fn law_unsendable_change_stays_pending(m: SyncMarkers, current: int, t: SyncTick)
    requires
        !m.running,
        t.change is Some,
        !t.can_send,
    ensures
        replay(m, current, seq![t]).2.len() == 0,
        replay(m, current, seq![t]).0 == (SyncMarkers { running: false, pending: true }),
{
    assert(seq![t].drop_last() =~= Seq::<SyncTick>::empty());
    assert(replay(m, current, seq![t].drop_last()) == (m, current, Seq::<int>::empty()));
}

/// A request that the client sends: the verb's name, its id, and its
/// parameters.
pub struct ClientRequest {
    pub verb: String,
    pub id: u32,
    pub call: VerbCall,
}

/// Why the client could not build a request.
#[derive(Debug, PartialEq, Eq)]
pub enum ClientError {
    /// No remote handle has been discovered yet.
    NoRemoteHandle,
}

/// The fully-qualified type path of the camera component.
pub open spec fn camera_path() -> Seq<char> {
    "bevy_render::camera::camera::Camera"@
}

/// The fully-qualified type path of the transform component.
pub open spec fn transform_path() -> Seq<char> {
    "bevy_transform::components::transform::Transform"@
}

/// The client's own state: the last request id it used and the server's URL.
pub struct BrpClient {
    pub last_id: u32,
    pub url: String,
}

impl BrpClient {
    /// A client that has sent nothing and talks to the local server on the
    /// default port.
    pub fn new() -> (r: BrpClient)
        ensures
            r.last_id == 0,
            r.url@ == "http://127.0.0.1:15702"@,
    {
        BrpClient { last_id: 0, url: String::from_str("http://127.0.0.1:15702") }
    }

    /// The next request id.
    pub fn next_id(&mut self) -> (r: u32)
        requires
            old(self).last_id < u32::MAX,
        ensures
            final(self).last_id == old(self).last_id + 1,
            r == final(self).last_id,
            final(self).url == old(self).url,
    {
        self.last_id = self.last_id + 1;
        self.last_id
    }

    /// Points the client at another server.
    pub fn set_url(&mut self, url: String)
        ensures
            final(self).url == url,
            final(self).last_id == old(self).last_id,
    {
        self.url = url;
    }

    /// The query that looks for the remote camera.
    pub fn fetch_remote_camera(&mut self) -> (r: ClientRequest)
        requires
            old(self).last_id < u32::MAX,
        ensures
            final(self).last_id == old(self).last_id + 1,
            final(self).url == old(self).url,
            r.verb@ == "QUERY"@,
            r.id == final(self).last_id,
            match r.call {
                VerbCall::Query { components, with, without } => components@.len() == 1
                    && components@[0]@ == camera_path() && with@.len() == 0 && without@.len()
                    == 0,
                _ => false,
            },
    {
        let id = self.next_id();
        let mut components: Vec<String> = Vec::new();
        components.push(String::from_str("bevy_render::camera::camera::Camera"));
        ClientRequest {
            verb: String::from_str("QUERY"),
            id,
            call: VerbCall::Query { components, with: Vec::new(), without: Vec::new() },
        }
    }

    /// The update that stores `transform` on the remote object `handle`, or
    /// an error when no handle has been discovered. The id is used up either
    /// way.
    pub fn post_transform(&mut self, handle: Option<u64>, transform: Json) -> (r: Result<
        ClientRequest,
        ClientError,
    >)
        requires
            old(self).last_id < u32::MAX,
        ensures
            final(self).last_id == old(self).last_id + 1,
            final(self).url == old(self).url,
            handle is None ==> r == Err::<ClientRequest, ClientError>(ClientError::NoRemoteHandle),
            handle is Some ==> match r {
                Ok(req) => req.verb@ == "INSERT"@ && req.id == final(self).last_id && match req.call {
                    VerbCall::Insert { entity, components } => entity == handle->0
                        && components@.len() == 1 && components@[0].path@ == transform_path()
                        && components@[0].value == transform,
                    _ => false,
                },
                Err(_) => false,
            },
    {
        let id = self.next_id();
        match handle {
            None => Err(ClientError::NoRemoteHandle),
            Some(entity) => {
                let mut components: Vec<Component> = Vec::new();
                components.push(
                    Component {
                        path: String::from_str("bevy_transform::components::transform::Transform"),
                        value: transform,
                    },
                );
                Ok(
                    ClientRequest {
                        verb: String::from_str("INSERT"),
                        id,
                        call: VerbCall::Insert { entity, components },
                    },
                )
            },
        }
    }

    /// The request that spawns a remote marker object: `shown_marker` when
    /// the remote counter is to be visible, `hidden_marker` otherwise. The
    /// marker is a component with no data.
    pub fn spawn_fps_marker(&mut self, visibility: bool, shown_marker: String, hidden_marker: String) -> (r: ClientRequest)
        requires
            old(self).last_id < u32::MAX,
        ensures
            final(self).last_id == old(self).last_id + 1,
            final(self).url == old(self).url,
            r.verb@ == "SPAWN"@,
            r.id == final(self).last_id,
            match r.call {
                VerbCall::Spawn { components } => components@.len() == 1 && components@[0].path
                    == (if visibility { shown_marker } else { hidden_marker })
                    && components@[0].value == Json::Null,
                _ => false,
            },
    {
        let marker = if visibility { shown_marker } else { hidden_marker };
        let id = self.next_id();
        let mut components: Vec<Component> = Vec::new();
        components.push(Component { path: marker, value: Json::Null });
        ClientRequest { verb: String::from_str("SPAWN"), id, call: VerbCall::Spawn { components } }
    }
}

/// A press of the toggle key flips the remote counter's visibility, unless a
/// toggle request is still running; the new visibility is returned when a
/// request is to be sent.
pub fn toggle_fps(visible: bool, request_running: bool, just_pressed: bool) -> (r: Option<bool>)
    ensures
        r == (if just_pressed && !request_running {
            Some(!visible)
        } else {
            None
        }),
{
    if just_pressed && !request_running {
        Some(!visible)
    } else {
        None
    }
}

/// The handle in the first row of a query response: `rows` is a non-empty
/// array whose first element has a non-negative integer `entity`. Anything
/// else (an error response, no rows, another shape) gives no handle.
pub open spec fn first_row_entity(response: Json) -> Option<u64> {
    match member_of(response, "rows"@) {
        Some(Json::Array(rows)) => if rows@.len() > 0 {
            u64_at(rows@[0], "entity"@)
        } else {
            None
        },
        _ => None,
    }
}

/// The remote handle that a response to the discovery query names.
pub fn discovered_handle(response: &Json) -> (r: Option<u64>)
    ensures
        r == first_row_entity(*response),
{
    match member(response, "rows") {
        Some(Json::Array(rows)) => {
            if rows.len() == 0 {
                None
            } else {
                read_u64(&rows[0], "entity")
            }
        },
        _ => None,
    }
}

} // verus!
