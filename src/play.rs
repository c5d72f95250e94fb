use vstd::prelude::*;

use crate::error::BridgeError;
use crate::record::{Action, Agent, Environment, Record, Trajectory};
use crate::session::{Handle, Owner, Session};

verus! {

impl Trajectory {
    /// The texts of the actions, in call order.
    pub open spec fn spec_actions(&self) -> Seq<Seq<char>> {
        self.actions@.map_values(|a: String| a@)
    }
}

/// `act` may return the action text `text` when handed `agent` and a fresh,
/// empty environment.
pub open spec fn may_choose<F>(act: F, agent: Agent, text: Seq<char>) -> bool where
    F: Fn(&Agent, Environment) -> Result<Action, BridgeError>,
 {
    exists|env: Environment, a: Action|
        #![trigger act.ensures((&agent, env), Ok::<Action, BridgeError>(a))]
        env.s@.len() == 0 && act.ensures((&agent, env), Ok::<Action, BridgeError>(a)) && a.s@ == text
}

/// `act` may fail with `e` when handed `agent` and a fresh, empty
/// environment.
pub open spec fn may_fail<F>(act: F, agent: Agent, e: BridgeError) -> bool where
    F: Fn(&Agent, Environment) -> Result<Action, BridgeError>,
 {
    exists|env: Environment|
        #![trigger act.ensures((&agent, env), Err::<Action, BridgeError>(e))]
        env.s@.len() == 0 && act.ensures((&agent, env), Err::<Action, BridgeError>(e))
}

/// The driving loop: `steps` times, in order, hands `agent` and a fresh,
/// empty environment to `act`, and records the text of the action that it
/// returns. The first failure ends the loop and is returned.
pub fn play_loop<F>(agent: &Agent, steps: usize, act: &F) -> (r: Result<Trajectory, BridgeError>) where
    F: Fn(&Agent, Environment) -> Result<Action, BridgeError>,

    requires
        forall|env: Environment| env.s@.len() == 0 ==> #[trigger] act.requires((agent, env)),
    ensures
        r is Ok ==> r->Ok_0.spec_actions().len() == steps,
        r is Ok ==> forall|i: int|
            0 <= i < steps ==> may_choose(*act, *agent, #[trigger] r->Ok_0.spec_actions()[i]),
        r is Err ==> may_fail(*act, *agent, r->Err_0),
        steps == 0 ==> r is Ok,
{
    let mut actions: Vec<String> = Vec::new();
    let mut i: usize = 0;
    while i < steps
        invariant
            i <= steps,
            actions@.len() == i,
            forall|env: Environment| env.s@.len() == 0 ==> #[trigger] act.requires((agent, env)),
            forall|k: int|
                0 <= k < i ==> may_choose(*act, *agent, #[trigger] actions@[k]@),
        decreases steps - i,
    {
        let env = Environment { s: String::new() };
        match act(agent, env) {
            Ok(a) => {
                proof {
                    assert(may_choose(*act, *agent, a.s@));
                }
                actions.push(a.s);
            },
            Err(err) => {
                proof {
                    assert(may_fail(*act, *agent, err));
                }
                return Err(err);
            },
        }
        i = i + 1;
    }
    let t = Trajectory { actions };
    proof {
        assert forall|k: int| 0 <= k < steps implies may_choose(
            *act,
            *agent,
            #[trigger] t.spec_actions()[k],
        ) by {
            assert(t.spec_actions()[k] == t.actions@[k]@);
        }
    }
    Ok(t)
}

/// Two agents with the same name and the same embedded reference.
pub open spec fn same_agent(a: Agent, b: Agent) -> bool {
    a.spec_name() == b.spec_name() && a.spec_callback() == b.spec_callback()
}

/// An agent like `stored` may make `act` fail with `e`.
pub open spec fn agent_may_fail<F>(act: F, stored: Agent, e: BridgeError) -> bool where
    F: Fn(&Agent, Environment) -> Result<Action, BridgeError>,
 {
    exists|a: Agent| same_agent(a, stored) && may_fail(act, a, e)
}

/// Plays the agent boxed behind `agent` for `steps` steps and returns the
/// trajectory to the host, boxed and unrooted. The agent is unboxed first
/// (`TypeMismatch`, changing nothing, when the handle holds no agent); the
/// loop then runs inside a GC-safe region, where `act` can reach no handle
/// of the session, and a failure of `act` ends it and is returned.
pub fn play<F>(session: &mut Session, agent: &Handle, steps: usize, act: &F) -> (r: Result<
    Handle,
    BridgeError,
>) where F: Fn(&Agent, Environment) -> Result<Action, BridgeError>
    requires
        old(session).wf(),
        old(session).accessible(*agent),
        old(session).spec_epoch() < u64::MAX,
        forall|a: Agent, env: Environment| env.s@.len() == 0 ==> #[trigger] act.requires((&a, env)),
    ensures
        final(session).wf(),
        !(old(session).spec_heap()[agent.obj as int] is Agent) ==> r == Err::<Handle, BridgeError>(
            BridgeError::TypeMismatch,
        ) && *final(session) == *old(session),
        old(session).spec_heap()[agent.obj as int] is Agent ==> {
            &&& final(session).spec_epoch() == old(session).spec_epoch() + 1
            &&& !final(session).spec_safe()
            &&& final(session).spec_frames() == old(session).spec_frames()
            &&& final(session).spec_next_id() == old(session).spec_next_id()
            &&& steps == 0 ==> r is Ok
            &&& r is Ok ==> {
                &&& r->Ok_0.obj == old(session).spec_heap().len()
                &&& r->Ok_0.owner == Owner::Unrooted(final(session).spec_epoch())
                &&& final(session).live(r->Ok_0)
                &&& final(session).spec_heap().drop_last() == old(session).spec_heap()
                &&& final(session).spec_heap().len() == old(session).spec_heap().len() + 1
                &&& final(session).spec_heap().last() is Trajectory
                &&& final(session).spec_heap().last()->Trajectory_0.spec_actions().len() == steps
                &&& exists|a: Agent|
                    same_agent(a, old(session).spec_heap()[agent.obj as int]->Agent_0) && forall|
                        i: int,
                    |
                        0 <= i < steps ==> may_choose(
                            *act,
                            a,
                            #[trigger] final(session).spec_heap().last()->Trajectory_0.spec_actions()[i],
                        )
            }
            &&& r is Err ==> final(session).spec_heap() == old(session).spec_heap() && agent_may_fail(
                *act,
                old(session).spec_heap()[agent.obj as int]->Agent_0,
                r->Err_0,
            )
        },
{
    let a = match Agent::unbox(session, agent) {
        Ok(a) => a,
        Err(e) => return Err(e),
    };
    session.enter_safe();
    let played = play_loop(&a, steps, act);
    session.leave_safe();
    match played {
        Ok(t) => {
            let ghost before = session.spec_heap();
            let ghost tr = t;
            let h = session.alloc_unrooted(Record::Trajectory(t));
            proof {
                assert(session.spec_heap().drop_last() =~= before);
                assert(same_agent(a, old(session).spec_heap()[agent.obj as int]->Agent_0));
                assert(session.spec_heap().last()->Trajectory_0 == tr);
            }
            Ok(h)
        },
        Err(e) => {
            proof {
                assert(same_agent(a, old(session).spec_heap()[agent.obj as int]->Agent_0));
                assert(played == Err::<Trajectory, BridgeError>(e));
                assert(may_fail(*act, a, e));
                assert(agent_may_fail(*act, old(session).spec_heap()[agent.obj as int]->Agent_0, e));
            }
            Err(e)
        },
    }
}

} // verus!
