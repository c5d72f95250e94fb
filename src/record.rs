use vstd::prelude::*;

use crate::error::BridgeError;
use crate::session::{Handle, Owner, Session};

verus! {

/// The state handed to an agent at each step. Opaque to the host.
#[derive(Debug)]
pub struct Environment {
    pub s: String,
}

/// What an agent chose to do. Opaque to the host.
#[derive(Debug)]
pub struct Action {
    pub s: String,
}

/// The actions of one run of the driving loop, in call order. Opaque to the
/// host.
#[derive(Debug)]
pub struct Trajectory {
    pub actions: Vec<String>,
}

/// A named agent whose behaviour is a host closure. It is a foreign record:
/// it embeds a host reference as native state, and its trace function
/// reports that reference to the collector.
#[derive(Debug)]
pub struct Agent {
    name: String,
    callback: Handle,
}

/// A value that the host heap holds, tagged with its native type.
#[derive(Debug)]
pub enum Record {
    /// A host string.
    Text(String),
    /// A host closure, by the host's identity for it.
    Closure(u64),
    Environment(Environment),
    Action(Action),
    Trajectory(Trajectory),
    Agent(Agent),
}

/// The text of a freshly made environment.
pub open spec fn fresh_environment_text() -> Seq<char> {
    seq!['[', ']']
}

impl Environment {
    /// A fresh environment, whose text is `[]`.
    pub fn fresh() -> (e: Environment)
        ensures
            e.s@ == fresh_environment_text(),
    {
        let s = "[]".to_owned();
        proof {
            reveal_strlit("[]");
            assert(s@ =~= fresh_environment_text());
        }
        Environment { s }
    }

    /// Boxes a fresh environment, whose text is `[]`, and returns it to the
    /// host unrooted.
    pub fn new(session: &mut Session) -> (h: Handle)
        requires
            old(session).wf(),
            !old(session).spec_safe(),
        ensures
            final(session).wf(),
            h.obj == old(session).spec_heap().len(),
            h.owner == Owner::Unrooted(old(session).spec_epoch()),
            final(session).spec_heap().len() == old(session).spec_heap().len() + 1,
            final(session).spec_heap().drop_last() == old(session).spec_heap(),
            final(session).spec_heap().last() is Environment,
            final(session).spec_heap().last()->Environment_0.s@ == fresh_environment_text(),
            final(session).spec_frames() == old(session).spec_frames(),
            final(session).spec_next_id() == old(session).spec_next_id(),
            final(session).spec_epoch() == old(session).spec_epoch(),
            !final(session).spec_safe(),
    {
        let env = Environment::fresh();
        let ghost before = session.spec_heap();
        let h = session.alloc_unrooted(Record::Environment(env));
        proof {
            assert(session.spec_heap().drop_last() =~= before);
        }
        h
    }
}

impl Environment {
    /// Hands the environment's text to the host as a host string: it is
    /// boxed in a frame of one slot and leaked to the caller's frame, or,
    /// with no frame open, returned unrooted.
    pub fn to_string(&self, session: &mut Session) -> (h: Handle)
        requires
            old(session).wf(),
            !old(session).spec_safe(),
            old(session).spec_next_id() < u64::MAX,
        ensures
            final(session).wf(),
            h.obj == old(session).spec_heap().len(),
            old(session).spec_frames().len() == 0 ==> h.owner == Owner::Unrooted(
                old(session).spec_epoch(),
            ),
            old(session).spec_frames().len() > 0 ==> h.owner == Owner::Frame(
                old(session).top().id,
            ),
            final(session).live(h),
            final(session).spec_heap().len() == old(session).spec_heap().len() + 1,
            final(session).spec_heap().drop_last() == old(session).spec_heap(),
            final(session).spec_heap().last() is Text,
            final(session).spec_heap().last()->Text_0@ == self.s@,
            final(session).spec_frames() == old(session).spec_frames(),
            final(session).spec_next_id() == old(session).spec_next_id() + 1,
            final(session).spec_epoch() == old(session).spec_epoch(),
            !final(session).spec_safe(),
    {
        let ghost s0 = *session;
        session.open_frame(1);
        let boxed = session.box_record(Record::Text(self.s.clone()));
        let h = match boxed {
            Ok(b) => session.leak(b),
            Err(_) => {
                proof {
                    assert(false);
                }
                Handle { obj: 0, owner: Owner::Traced }
            },
        };
        session.close_frame();
        proof {
            assert(session.spec_frames() =~= s0.spec_frames());
            assert(session.spec_heap().drop_last() =~= s0.spec_heap());
            if s0.spec_frames().len() > 0 {
                let n = s0.spec_frames().len();
                assert(session.spec_frames()[n - 1].id == s0.top().id);
            }
        }
        h
    }
}

impl Action {
    /// Builds an action from a host string and returns it to the host,
    /// boxed and unrooted. Fails with `TypeMismatch`, changing nothing,
    /// when the handle holds no host string.
    pub fn new(session: &mut Session, s: &Handle) -> (r: Result<Handle, BridgeError>)
        requires
            old(session).wf(),
            old(session).accessible(*s),
        ensures
            final(session).wf(),
            !(old(session).spec_heap()[s.obj as int] is Text) ==> r == Err::<Handle, BridgeError>(
                BridgeError::TypeMismatch,
            ) && *final(session) == *old(session),
            old(session).spec_heap()[s.obj as int] is Text ==> r is Ok
                && r->Ok_0.obj == old(session).spec_heap().len()
                && r->Ok_0.owner == Owner::Unrooted(old(session).spec_epoch())
                && final(session).spec_heap().drop_last() == old(session).spec_heap()
                && final(session).spec_heap().len() == old(session).spec_heap().len() + 1
                && final(session).spec_heap().last() is Action
                && final(session).spec_heap().last()->Action_0.s@ == old(session).spec_heap()[s.obj as int]->Text_0@,
            final(session).spec_frames() == old(session).spec_frames(),
            final(session).spec_next_id() == old(session).spec_next_id(),
            final(session).spec_epoch() == old(session).spec_epoch(),
            final(session).spec_safe() == old(session).spec_safe(),
    {
        let text = match session.unbox_text(s) {
            Ok(t) => t,
            Err(e) => return Err(e),
        };
        let ghost before = session.spec_heap();
        let h = session.alloc_unrooted(Record::Action(Action { s: text }));
        proof {
            assert(session.spec_heap().drop_last() =~= before);
        }
        Ok(h)
    }

    /// Unboxes an action. Fails with `TypeMismatch` when the handle holds a
    /// record of any other type.
    pub fn unbox(session: &Session, h: &Handle) -> (r: Result<Action, BridgeError>)
        requires
            session.accessible(*h),
        ensures
            session.spec_heap()[h.obj as int] is Action ==> r is Ok && r->Ok_0.s@
                == session.spec_heap()[h.obj as int]->Action_0.s@,
            !(session.spec_heap()[h.obj as int] is Action) ==> r == Err::<Action, BridgeError>(
                BridgeError::TypeMismatch,
            ),
    {
        match session.get(h) {
            Record::Action(a) => Ok(Action { s: a.s.clone() }),
            _ => Err(BridgeError::TypeMismatch),
        }
    }
}

impl Agent {
    pub closed spec fn spec_name(&self) -> Seq<char> {
        self.name@
    }

    /// The embedded reference to the agent's host closure.
    pub closed spec fn spec_callback(&self) -> Handle {
        self.callback
    }

    /// Builds an agent from a host string and a host closure and returns it
    /// to the host, boxed and unrooted. The closure is embedded as a traced
    /// reference. Fails with `TypeMismatch`, changing nothing, when `name`
    /// holds no host string.
    pub fn new(session: &mut Session, name: &Handle, callback: &Handle) -> (r: Result<
        Handle,
        BridgeError,
    >)
        requires
            old(session).wf(),
            old(session).accessible(*name),
            old(session).accessible(*callback),
        ensures
            final(session).wf(),
            !(old(session).spec_heap()[name.obj as int] is Text) ==> r == Err::<
                Handle,
                BridgeError,
            >(BridgeError::TypeMismatch) && *final(session) == *old(session),
            old(session).spec_heap()[name.obj as int] is Text ==> r is Ok
                && r->Ok_0.obj == old(session).spec_heap().len()
                && r->Ok_0.owner == Owner::Unrooted(old(session).spec_epoch())
                && final(session).spec_heap().drop_last() == old(session).spec_heap()
                && final(session).spec_heap().len() == old(session).spec_heap().len() + 1
                && final(session).spec_heap().last() is Agent
                && final(session).spec_heap().last()->Agent_0.spec_name() == old(session).spec_heap()[name.obj as int]->Text_0@
                && final(session).spec_heap().last()->Agent_0.spec_callback() == (Handle { obj: callback.obj, owner: Owner::Traced }),
            final(session).spec_frames() == old(session).spec_frames(),
            final(session).spec_next_id() == old(session).spec_next_id(),
            final(session).spec_epoch() == old(session).spec_epoch(),
            final(session).spec_safe() == old(session).spec_safe(),
    {
        let text = match session.unbox_text(name) {
            Ok(t) => t,
            Err(e) => return Err(e),
        };
        let agent = Agent { name: text, callback: Handle { obj: callback.obj, owner: Owner::Traced } };
        let ghost before = session.spec_heap();
        let h = session.alloc_unrooted(Record::Agent(agent));
        proof {
            assert(session.spec_heap().drop_last() =~= before);
        }
        Ok(h)
    }

    /// Unboxes an agent. Fails with `TypeMismatch` when the handle holds a
    /// record of any other type.
    pub fn unbox(session: &Session, h: &Handle) -> (r: Result<Agent, BridgeError>)
        requires
            session.wf(),
            session.accessible(*h),
        ensures
            session.spec_heap()[h.obj as int] is Agent ==> r is Ok
                && r->Ok_0.spec_name() == session.spec_heap()[h.obj as int]->Agent_0.spec_name()
                && r->Ok_0.spec_callback() == session.spec_heap()[h.obj as int]->Agent_0.spec_callback()
                && session.live(r->Ok_0.spec_callback()),
            !(session.spec_heap()[h.obj as int] is Agent) ==> r == Err::<Agent, BridgeError>(
                BridgeError::TypeMismatch,
            ),
    {
        match session.get(h) {
            Record::Agent(a) => {
                Ok(Agent { name: a.name.clone(), callback: a.callback })
            },
            _ => Err(BridgeError::TypeMismatch),
        }
    }

    pub fn name(&self) -> (r: &String)
        ensures
            r@ == self.spec_name(),
    {
        &self.name
    }

    pub fn callback(&self) -> (r: Handle)
        ensures
            r == self.spec_callback(),
    {
        self.callback
    }

    /// The trace function: the host references that this foreign record
    /// keeps alive, for the collector to mark.
    pub fn trace(&self) -> (r: Vec<usize>)
        ensures
            r@ == seq![self.spec_callback().obj],
    {
        let mut v: Vec<usize> = Vec::new();
        v.push(self.callback.obj);
        proof {
            assert(v@ =~= seq![self.spec_callback().obj]);
        }
        v
    }

    /// Clones the agent under the current call: its embedded reference is
    /// rooted again in the innermost frame, so that the clone's reference is
    /// valid for as long as that frame is open. Fails with
    /// `CapacityExceeded`, changing nothing, when the frame is full.
    pub fn clone_rooted(&self, session: &mut Session) -> (r: Result<Agent, BridgeError>)
        requires
            old(session).wf(),
            !old(session).spec_safe(),
            old(session).spec_frames().len() > 0,
            old(session).live(self.spec_callback()),
        ensures
            final(session).wf(),
            final(session).spec_heap() == old(session).spec_heap(),
            final(session).spec_next_id() == old(session).spec_next_id(),
            final(session).spec_epoch() == old(session).spec_epoch(),
            final(session).spec_safe() == old(session).spec_safe(),
            old(session).keeps_closed(final(session)),
            final(session).spec_frames().len() == old(session).spec_frames().len(),
            final(session).top().id == old(session).top().id,
            old(session).top().used == old(session).top().capacity ==> r == Err::<
                Agent,
                BridgeError,
            >(BridgeError::CapacityExceeded) && *final(session) == *old(session),
            old(session).top().used < old(session).top().capacity ==> r is Ok
                && r->Ok_0.spec_name() == self.spec_name()
                && r->Ok_0.spec_callback() == (Handle { obj: self.spec_callback().obj, owner: Owner::Frame(old(session).top().id) })
                && final(session).live(r->Ok_0.spec_callback()),
    {
        match session.root(self.callback) {
            Ok(h) => {
                Ok(Agent { name: self.name.clone(), callback: h })
            },
            Err(e) => Err(e),
        }
    }
}

} // verus!
