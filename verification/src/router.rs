//! Signaling router: the per-connection protocol state machine.
//!
//! A connection starts unjoined.  Its first accepted message must be a
//! join, which admits the user to the room and announces them to every
//! other member; a duplicate identity is rejected and the connection
//! closed with no state touched.  Once joined, presence changes fan out
//! to the rest of the room and negotiation messages go to one named
//! target, each stamped with the authenticated sender regardless of any
//! client-supplied source.  On disconnect the user leaves and the
//! remaining members hear of it.

use vstd::prelude::*;

use crate::message::MsgKind;
use crate::message::MsgView;
use crate::message::WireMessage;
use crate::rooms::Delivery;
use crate::rooms::JoinError;
use crate::rooms::LeaveResult;
use crate::rooms::RoomRegistry;
use crate::rooms::deliveries_view;
use crate::rooms::key_index;
use crate::rooms::spec_deliveries;

verus! {

/// Where a connection stands in the protocol.
pub enum ConnPhase {
    /// Nothing accepted yet but a join.
    Unjoined,
    /// Admitted to the room under this identity.
    Joined { user: String },
    /// Terminal: the connection is gone or was rejected.
    Closed,
}

/// The protocol state of one connection: the room it talks to, the
/// outbound handle its own messages are delivered on, and its phase.
pub struct ConnState {
    pub room: String,
    pub handle: u64,
    pub phase: ConnPhase,
}

/// What one protocol step decided: the deliveries to perform, and
/// whether the connection must be closed.
pub struct StepOutput {
    pub deliveries: Vec<Delivery>,
    pub close: bool,
}

/// The announcement of a newly joined user: their identity as source,
/// their presence payload passed through.
pub open spec fn join_note_view(user: Seq<char>, data: Option<Seq<char>>) -> MsgView {
    MsgView {
        kind: MsgKind::UserJoined,
        target: Option::None,
        source: Option::Some(user),
        data,
    }
}

/// A presence change as fanned out: same kind and payload, the sender
/// forced in as source, no target.
pub open spec fn presence_note_view(kind: MsgKind, user: Seq<char>, data: Option<Seq<char>>) -> MsgView {
    MsgView { kind, target: Option::None, source: Option::Some(user), data }
}

/// A targeted message as forwarded: unaltered except for the injected
/// source.
pub open spec fn stamped_view(m: MsgView, user: Seq<char>) -> MsgView {
    MsgView { kind: m.kind, target: m.target, source: Option::Some(user), data: m.data }
}

/// The announcement of a departed user.
pub open spec fn left_note_view(user: Seq<char>) -> MsgView {
    MsgView {
        kind: MsgKind::UserLeft,
        target: Option::None,
        source: Option::Some(user),
        data: Option::None,
    }
}

/// The kinds that fan out to the whole room.
pub open spec fn is_presence_kind(k: MsgKind) -> bool {
    k == MsgKind::UserUpdate || k == MsgKind::CamToggle || k == MsgKind::ScreenToggle
}

/// The kinds that go to one named target.
pub open spec fn is_targeted_kind(k: MsgKind) -> bool {
    k == MsgKind::Signal || k == MsgKind::Identify
}

/// Relies on `uuid::Uuid::new_v4` and its display form: a fresh random
/// version-4 identifier rendered as 36 hyphenated lowercase hex
/// characters.  Nothing more is promised: the value is random.
#[verifier::external_body]
fn fresh_user_id() -> (r: String)
    ensures
        r@.len() == 36,
{
    uuid::Uuid::new_v4().to_string()
}

impl ConnState {
    /// A fresh connection to a room: unjoined, delivering on `handle`.
    pub fn new(room: String, handle: u64) -> (r: ConnState)
        ensures
            r.room == room,
            r.handle == handle,
            r.phase is Unjoined,
    {
        ConnState { room, handle, phase: ConnPhase::Unjoined }
    }

    /// A joined connection's identity is a live entry of its room,
    /// delivering on its handle.
    pub open spec fn consistent_with(self, reg: RoomRegistry) -> bool {
        self.phase matches ConnPhase::Joined { user } ==> reg.is_member(self.room@, user@)
            && reg.handle_of(self.room@, user@) == self.handle
    }
}

/// Routes one message from a connection.
///
/// Unjoined: only a join is accepted; it admits the claimed identity
/// (the client-supplied one, or a fresh random one when the client sent
/// none), announces the user to every other member, and rejects a
/// duplicate identity by closing the connection with nothing mutated.
/// Joined: presence kinds fan out to all other members, targeted kinds
/// go to the named target if present, everything else is ignored; the
/// sender's identity is always forced in as source.  Closed: ignored.
pub fn handle_message(reg: &mut RoomRegistry, st: &mut ConnState, msg: WireMessage) -> (out:
    StepOutput)
    requires
        old(reg).wf(),
        old(st).consistent_with(*old(reg)),
    ensures
        final(reg).wf(),
        final(st).consistent_with(*final(reg)),
        final(st).room == old(st).room,
        final(st).handle == old(st).handle,
        // A connection never closes except on a rejected join.
        out.close ==> old(st).phase is Unjoined && msg@.kind == MsgKind::Join,
        // Unjoined, not a join: silently discarded.
        old(st).phase is Unjoined && msg@.kind != MsgKind::Join ==> *final(reg) == *old(reg)
            && *final(st) == *old(st) && out.deliveries@.len() == 0 && !out.close,
        // Unjoined join, outcome by phase: admitted ...
        old(st).phase is Unjoined && msg@.kind == MsgKind::Join ==> match final(st).phase {
            ConnPhase::Joined { user } => {
                &&& (msg@.source matches Some(u) ==> user@ == u)
                &&& (msg@.source is None ==> user@.len() == 36)
                &&& !old(reg).is_member(old(st).room@, user@)
                &&& final(reg).entries_of(old(st).room@) == old(reg).entries_of(
                    old(st).room@,
                ).push((user@, old(st).handle))
                &&& (forall|r2: Seq<char>|
                    r2 != old(st).room@ ==> #[trigger] final(reg).entries_of(r2) == old(
                        reg,
                    ).entries_of(r2))
                &&& deliveries_view(out.deliveries@) == spec_deliveries(
                    final(reg).entries_of(old(st).room@),
                    user@,
                    join_note_view(user@, msg@.data),
                )
                &&& !out.close
            },
            // ... or rejected: the claimed identity was already live.
            ConnPhase::Closed => {
                &&& *final(reg) == *old(reg)
                &&& out.deliveries@.len() == 0
                &&& out.close
                &&& (msg@.source matches Some(u) ==> old(reg).is_member(old(st).room@, u))
            },
            ConnPhase::Unjoined => false,
        },
        // With a client-supplied identity the outcome is determined.
        msg@.source matches Some(u) ==> ((old(st).phase is Unjoined && msg@.kind
            == MsgKind::Join) ==> (old(reg).is_member(old(st).room@, u)
            <==> final(st).phase is Closed)),
        // Joined: the registry and the phase never change; ...
        old(st).phase is Joined ==> *final(reg) == *old(reg) && *final(st) == *old(st)
            && !out.close,
        // ... presence kinds fan out to everyone else, stamped;
        old(st).phase matches ConnPhase::Joined { user } ==> (is_presence_kind(msg@.kind)
            ==> deliveries_view(out.deliveries@) == spec_deliveries(
            old(reg).entries_of(old(st).room@),
            user@,
            presence_note_view(msg@.kind, user@, msg@.data),
        )),
        // ... targeted kinds reach a present target exactly once,
        // stamped but otherwise unaltered, and miss silently;
        old(st).phase matches ConnPhase::Joined { user } ==> (is_targeted_kind(msg@.kind)
            ==> match msg@.target {
            Some(t) => {
                if old(reg).is_member(old(st).room@, t) {
                    deliveries_view(out.deliveries@) == seq![
                        (
                            old(reg).handle_of(old(st).room@, t),
                            stamped_view(msg@, user@),
                        ),
                    ]
                } else {
                    out.deliveries@.len() == 0
                }
            },
            None => out.deliveries@.len() == 0,
        }),
        // ... and everything else is ignored.
        old(st).phase is Joined && !is_presence_kind(msg@.kind) && !is_targeted_kind(
            msg@.kind,
        ) ==> out.deliveries@.len() == 0,
        // Closed: ignored.
        old(st).phase is Closed ==> *final(reg) == *old(reg) && *final(st) == *old(st)
            && out.deliveries@.len() == 0 && !out.close,
{
    let WireMessage { kind, target, source, data } = msg;
    match &st.phase {
        ConnPhase::Unjoined => {
            if kind == MsgKind::Join {
                let uid: String = match source {
                    Option::Some(u) => u,
                    Option::None => fresh_user_id(),
                };
                match reg.join(&st.room, &uid, st.handle) {
                    Result::Err(JoinError::AlreadyJoined) => {
                        st.phase = ConnPhase::Closed;
                        StepOutput { deliveries: Vec::new(), close: true }
                    },
                    Result::Ok(()) => {
                        let note = WireMessage {
                            kind: MsgKind::UserJoined,
                            target: Option::None,
                            source: Option::Some(uid.clone()),
                            data,
                        };
                        let deliveries = reg.broadcast(&st.room, &uid, &note);
                        st.phase = ConnPhase::Joined { user: uid };
                        StepOutput { deliveries, close: false }
                    },
                }
            } else {
                StepOutput { deliveries: Vec::new(), close: false }
            }
        },
        ConnPhase::Joined { user } => {
            if kind == MsgKind::UserUpdate || kind == MsgKind::CamToggle || kind
                == MsgKind::ScreenToggle {
                let note = WireMessage {
                    kind,
                    target: Option::None,
                    source: Option::Some(user.clone()),
                    data,
                };
                let deliveries = reg.broadcast(&st.room, user, &note);
                StepOutput { deliveries, close: false }
            } else if kind == MsgKind::Signal || kind == MsgKind::Identify {
                let stamped = WireMessage {
                    kind,
                    target,
                    source: Option::Some(user.clone()),
                    data,
                };
                let mut deliveries: Vec<Delivery> = Vec::new();
                match &stamped.target {
                    Option::Some(t) => {
                        match reg.send_to_user(&st.room, t, &stamped) {
                            Option::Some(d) => {
                                deliveries.push(d);
                                proof {
                                    assert(deliveries_view(deliveries@) =~= seq![
                                        (
                                            old(reg).handle_of(old(st).room@, t@),
                                            stamped_view(msg@, user@),
                                        ),
                                    ]);
                                }
                            },
                            Option::None => {},
                        }
                    },
                    Option::None => {},
                }
                StepOutput { deliveries, close: false }
            } else {
                StepOutput { deliveries: Vec::new(), close: false }
            }
        },
        ConnPhase::Closed => StepOutput { deliveries: Vec::new(), close: false },
    }
}

/// Routes a connection's departure: a joined user leaves their room,
/// and if other members remain they each hear a departure notice; the
/// last member's departure removes the room with no notice owed.  The
/// connection ends closed either way.
pub fn handle_disconnect(reg: &mut RoomRegistry, st: &mut ConnState) -> (deliveries: Vec<
    Delivery,
>)
    requires
        old(reg).wf(),
        old(st).consistent_with(*old(reg)),
    ensures
        final(reg).wf(),
        final(st).phase is Closed,
        final(st).room == old(st).room,
        final(st).handle == old(st).handle,
        !(old(st).phase is Joined) ==> *final(reg) == *old(reg) && deliveries@.len() == 0,
        old(st).phase matches ConnPhase::Joined { user } ==> {
            &&& !final(reg).is_member(old(st).room@, user@)
            &&& final(reg).entries_of(old(st).room@) == old(reg).entries_of(
                old(st).room@,
            ).remove(key_index(old(reg).entries_of(old(st).room@), user@))
            &&& final(reg).count(old(st).room@) == old(reg).count(old(st).room@) - 1
            &&& (final(reg).has_room(old(st).room@) <==> old(reg).count(old(st).room@) > 1)
            &&& (forall|r2: Seq<char>|
                r2 != old(st).room@ ==> #[trigger] final(reg).entries_of(r2) == old(
                    reg,
                ).entries_of(r2))
            &&& (old(reg).count(old(st).room@) == 1 ==> deliveries@.len() == 0)
            &&& (old(reg).count(old(st).room@) > 1 ==> deliveries_view(deliveries@)
                == spec_deliveries(
                final(reg).entries_of(old(st).room@),
                user@,
                left_note_view(user@),
            ))
        },
{
    let mut phase = ConnPhase::Closed;
    core::mem::swap(&mut st.phase, &mut phase);
    match phase {
        ConnPhase::Joined { user } => {
            match reg.leave(&st.room, &user) {
                LeaveResult::Left { room_now_empty } => {
                    if room_now_empty {
                        Vec::new()
                    } else {
                        let note = WireMessage {
                            kind: MsgKind::UserLeft,
                            target: Option::None,
                            source: Option::Some(user.clone()),
                            data: Option::None,
                        };
                        reg.broadcast(&st.room, &user, &note)
                    }
                },
                LeaveResult::NotMember => Vec::new(),
            }
        },
        _ => Vec::new(),
    }
}

} // verus!
