use vstd::prelude::*;

use crate::error::BridgeError;
use crate::record::{Action, Agent, Environment, Record};
use crate::session::{lemma_keeps_closed_trans, Frame, Handle, Owner, Session};

verus! {

/// A call into an agent's host closure, ready to be made: a fresh frame of
/// three slots is open and the argument is boxed and rooted in it.
#[derive(Debug)]
pub struct PendingCall {
    pub frame: u64,
    pub callback: Handle,
    pub arg: Handle,
}

/// The number of slots in the frame of one call into a host closure.
pub const CALL_FRAME_SLOTS: usize = 3;

impl Agent {
    /// Prepares a call of the agent's closure on `env`: opens a frame of
    /// three slots and boxes the environment in it. The host call itself is
    /// made by the caller, in GC-unsafe mode, with the two handles returned.
    pub fn begin_act(&self, session: &mut Session, env: Environment) -> (c: PendingCall)
        requires
            old(session).wf(),
            !old(session).spec_safe(),
            old(session).spec_next_id() < u64::MAX,
            old(session).live(self.spec_callback()),
        ensures
            final(session).wf(),
            c.frame == old(session).spec_next_id(),
            c.callback == self.spec_callback(),
            c.arg == (Handle { obj: old(session).spec_heap().len() as usize, owner: Owner::Frame(c.frame) }),
            final(session).spec_frames() == old(session).spec_frames().push(
                Frame { id: c.frame, capacity: CALL_FRAME_SLOTS, used: 1 },
            ),
            final(session).spec_heap() == old(session).spec_heap().push(Record::Environment(env)),
            final(session).accessible(c.arg),
            final(session).accessible(c.callback),
            final(session).spec_next_id() == old(session).spec_next_id() + 1,
            final(session).spec_epoch() == old(session).spec_epoch(),
            !final(session).spec_safe(),
            old(session).keeps_closed(final(session)),
    {
        let frame = session.open_frame(CALL_FRAME_SLOTS);
        let ghost s1 = *session;
        match session.box_record(Record::Environment(env)) {
            Ok(arg) => {
                proof {
                    assert(session.spec_frames() =~= old(session).spec_frames().push(
                        Frame { id: frame, capacity: CALL_FRAME_SLOTS, used: 1 },
                    ));
                    lemma_keeps_closed_trans(*old(session), s1, *session);
                }
                PendingCall { frame, callback: self.callback(), arg }
            },
            Err(_) => {
                proof {
                    assert(false);
                }
                PendingCall { frame, callback: self.callback(), arg: self.callback() }
            },
        }
    }
}

/// What a call into a host closure amounts to, given what the host
/// returned: a raised error becomes `CallbackError` with the host's
/// diagnostic, an action is taken as it is, and a value of any other type is
/// a `TypeMismatch`.
pub fn action_from_reply(reply: Result<Record, String>) -> (r: Result<Action, BridgeError>)
    ensures
        reply is Err ==> r == Err::<Action, BridgeError>(BridgeError::CallbackError(reply->Err_0)),
        reply is Ok && reply->Ok_0 is Action ==> r is Ok && r->Ok_0.s@ == reply->Ok_0->Action_0.s@,
        reply is Ok && !(reply->Ok_0 is Action) ==> r == Err::<Action, BridgeError>(
            BridgeError::TypeMismatch,
        ),
{
    match reply {
        Err(message) => Err(BridgeError::CallbackError(message)),
        Ok(Record::Action(a)) => Ok(a),
        Ok(_) => Err(BridgeError::TypeMismatch),
    }
}

/// Completes a call into a host closure with what the host returned, and
/// closes the call's frame. A raised error becomes `CallbackError` with the
/// host's diagnostic; a returned value is boxed in the frame and unboxed as
/// an action, `TypeMismatch` when it is no action. Only the unboxed action
/// outlives the frame.
pub fn finish_act(session: &mut Session, call: &PendingCall, reply: Result<Record, String>) -> (r:
    Result<Action, BridgeError>)
    requires
        old(session).wf(),
        !old(session).spec_safe(),
        old(session).spec_frames().len() > 0,
        old(session).top() == (Frame { id: call.frame, capacity: CALL_FRAME_SLOTS, used: 1 }),
        reply is Ok ==> old(session).fits(reply->Ok_0),
    ensures
        final(session).wf(),
        final(session).spec_frames() == old(session).spec_frames().drop_last(),
        final(session).frame_closed(call.frame),
        old(session).keeps_closed(final(session)),
        final(session).spec_next_id() == old(session).spec_next_id(),
        final(session).spec_epoch() == old(session).spec_epoch(),
        !final(session).spec_safe(),
        reply is Err ==> r == Err::<Action, BridgeError>(BridgeError::CallbackError(reply->Err_0)),
        reply is Ok && reply->Ok_0 is Action ==> r is Ok && r->Ok_0.s@ == reply->Ok_0->Action_0.s@,
        reply is Ok && !(reply->Ok_0 is Action) ==> r == Err::<Action, BridgeError>(
            BridgeError::TypeMismatch,
        ),
{
    let r = match reply {
        Err(message) => Err(BridgeError::CallbackError(message)),
        Ok(rec) => {
            let ghost g = rec;
            match session.box_record(rec) {
                Ok(h) => {
                    proof {
                        assert(session.spec_heap()[h.obj as int] == g);
                    }
                    Action::unbox(session, &h)
                },
                Err(e) => {
                    proof {
                        assert(false);
                    }
                    Err(e)
                },
            }
        },
    };
    let ghost s1 = *session;
    session.close_frame();
    proof {
        lemma_keeps_closed_trans(*old(session), s1, *session);
    }
    r
}

} // verus!
