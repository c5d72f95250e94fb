use agent_bridge::callback::{finish_act, PendingCall, CALL_FRAME_SLOTS};
use agent_bridge::context::HostThread;
use agent_bridge::error::BridgeError;
use agent_bridge::play::{play, play_loop};
use agent_bridge::record::{Action, Agent, Environment, Record};
use agent_bridge::session::{Handle, Owner, Session};

fn open_session() -> Session {
    let mut thread = HostThread::new(true);
    let guard = thread.acquire().expect("guard");
    Session::enter(guard)
}

fn text(session: &mut Session, s: &str) -> Handle {
    session.alloc_unrooted(Record::Text(s.to_string()))
}

fn noop(_agent: &Agent, _env: Environment) -> Result<Action, BridgeError> {
    Ok(Action { s: "noop".to_string() })
}

fn make_agent(session: &mut Session) -> Handle {
    let name = text(session, "walker");
    let callback = session.alloc_unrooted(Record::Closure(7));
    Agent::new(session, &name, &callback).expect("agent")
}

#[test]
fn guard_without_host_context_fails() {
    let mut thread = HostThread::new(false);
    assert!(matches!(thread.acquire(), Err(BridgeError::NotCalledFromHost)));
    assert!(!thread.guard_live());
}

#[test]
fn guard_is_not_reentrant() {
    let mut thread = HostThread::new(true);
    let guard = thread.acquire().expect("first guard");
    assert!(thread.guard_live());
    assert!(matches!(thread.acquire(), Err(BridgeError::AlreadyEntered)));
    thread.release(guard);
    assert!(!thread.guard_live());
    assert!(thread.acquire().is_ok());
}

#[test]
fn handle_dies_with_its_frame() {
    let mut s = open_session();
    let id = s.open_frame(2);
    assert_eq!(id, 0);
    let h = s.box_record(Record::Text("x".to_string())).expect("box");
    assert_eq!(h.owner, Owner::Frame(0));
    assert!(s.is_live(&h));
    s.close_frame();
    assert!(!s.is_live(&h));
    let id2 = s.open_frame(2);
    assert_eq!(id2, 1);
    assert!(!s.is_live(&h));
}

#[test]
fn leaked_handle_outlives_inner_frame() {
    let mut s = open_session();
    let outer = s.open_frame(1);
    s.open_frame(1);
    let h = s.box_record(Record::Closure(3)).expect("box");
    let up = s.leak(h);
    assert_eq!(up.owner, Owner::Frame(outer));
    s.close_frame();
    assert!(!s.is_live(&h));
    assert!(s.is_live(&up));
    let out = s.leak(up);
    assert_eq!(out.owner, Owner::Unrooted(0));
    s.close_frame();
    assert!(s.is_live(&out));
    assert_eq!(s.depth(), 0);
}

#[test]
fn frame_capacity_is_enforced() {
    let mut s = open_session();
    s.open_frame(1);
    assert!(s.box_record(Record::Closure(1)).is_ok());
    assert!(matches!(s.box_record(Record::Closure(2)), Err(BridgeError::CapacityExceeded)));
    let empty = s.open_frame(0);
    assert_eq!(empty, 1);
    assert!(matches!(s.box_record(Record::Closure(3)), Err(BridgeError::CapacityExceeded)));
}

#[test]
fn unboxing_opaque_record_as_other_type_fails() {
    let mut s = open_session();
    let env = Environment::new(&mut s);
    assert!(matches!(Action::unbox(&s, &env), Err(BridgeError::TypeMismatch)));
    assert!(matches!(Agent::unbox(&s, &env), Err(BridgeError::TypeMismatch)));
    match s.get(&env) {
        Record::Environment(e) => assert_eq!(e.s, "[]"),
        other => panic!("unexpected record {:?}", other),
    }
}

#[test]
fn action_from_host_string() {
    let mut s = open_session();
    let t = text(&mut s, "left");
    let a = Action::new(&mut s, &t).expect("action");
    assert_eq!(a.owner, Owner::Unrooted(0));
    let back = Action::unbox(&s, &a).expect("unbox");
    assert_eq!(back.s, "left");
    let c = s.alloc_unrooted(Record::Closure(1));
    assert!(matches!(Action::new(&mut s, &c), Err(BridgeError::TypeMismatch)));
    assert!(matches!(s.unbox_text(&c), Err(BridgeError::TypeMismatch)));
}

#[test]
fn environment_text_goes_to_host() {
    let mut s = open_session();
    let env = Environment { s: "state".to_string() };
    let h = env.to_string(&mut s);
    assert_eq!(h.owner, Owner::Unrooted(0));
    assert_eq!(s.unbox_text(&h).expect("text"), "state");
    let outer = s.open_frame(1);
    let h2 = env.to_string(&mut s);
    assert_eq!(h2.owner, Owner::Frame(outer));
    assert!(s.is_live(&h2));
    assert_eq!(s.depth(), 1);
}

#[test]
fn agent_embeds_traced_callback() {
    let mut s = open_session();
    let name = text(&mut s, "walker");
    let callback = s.alloc_unrooted(Record::Closure(7));
    let h = Agent::new(&mut s, &name, &callback).expect("agent");
    let agent = Agent::unbox(&s, &h).expect("unbox");
    assert_eq!(agent.name(), "walker");
    assert_eq!(agent.callback(), Handle { obj: callback.obj, owner: Owner::Traced });
    assert_eq!(agent.trace(), vec![callback.obj]);
    assert!(matches!(Agent::new(&mut s, &callback, &callback), Err(BridgeError::TypeMismatch)));
}

#[test]
fn agent_clone_is_rooted_in_current_frame() {
    let mut s = open_session();
    let h = make_agent(&mut s);
    let agent = Agent::unbox(&s, &h).expect("unbox");
    let frame = s.open_frame(1);
    let copy = agent.clone_rooted(&mut s).expect("clone");
    assert_eq!(copy.name(), "walker");
    assert_eq!(copy.callback().owner, Owner::Frame(frame));
    assert!(s.is_live(&copy.callback()));
    assert!(matches!(agent.clone_rooted(&mut s), Err(BridgeError::CapacityExceeded)));
    s.close_frame();
    assert!(!s.is_live(&copy.callback()));
    assert!(s.is_live(&agent.callback()));
}

#[test]
fn safe_region_drops_unrooted_handles() {
    let mut s = open_session();
    let frame = s.open_frame(1);
    let rooted = s.box_record(Record::Closure(1)).expect("box");
    let loose = s.alloc_unrooted(Record::Closure(2));
    assert!(s.is_live(&loose));
    s.enter_safe();
    assert!(s.is_safe());
    s.leave_safe();
    assert!(!s.is_safe());
    assert!(!s.is_live(&loose));
    assert!(s.is_live(&rooted));
    assert_eq!(rooted.owner, Owner::Frame(frame));
}

#[test]
fn loop_with_constant_callback() {
    let mut s = open_session();
    let h = make_agent(&mut s);
    let agent = Agent::unbox(&s, &h).expect("unbox");
    let t = play_loop(&agent, 3, &noop).expect("trajectory");
    assert_eq!(t.actions, vec!["noop".to_string(), "noop".to_string(), "noop".to_string()]);
}

#[test]
fn loop_with_zero_steps_is_empty() {
    let mut s = open_session();
    let h = make_agent(&mut s);
    let agent = Agent::unbox(&s, &h).expect("unbox");
    let t = play_loop(&agent, 0, &noop).expect("trajectory");
    assert!(t.actions.is_empty());
}

#[test]
fn loop_keeps_call_order_and_stops_on_error() {
    let mut s = open_session();
    let h = make_agent(&mut s);
    let agent = Agent::unbox(&s, &h).expect("unbox");
    let count = std::cell::Cell::new(0usize);
    let counting = |_a: &Agent, env: Environment| -> Result<Action, BridgeError> {
        assert_eq!(env.s, "");
        let n = count.get();
        count.set(n + 1);
        Ok(Action { s: format!("step{}", n) })
    };
    let t = play_loop(&agent, 3, &counting).expect("trajectory");
    assert_eq!(t.actions, vec!["step0".to_string(), "step1".to_string(), "step2".to_string()]);
    let failing = |_a: &Agent, _env: Environment| -> Result<Action, BridgeError> {
        let n = count.get();
        count.set(n + 1);
        if n == 4 {
            Err(BridgeError::CallbackError("boom".to_string()))
        } else {
            Ok(Action { s: "ok".to_string() })
        }
    };
    let r = play_loop(&agent, 5, &failing);
    assert_eq!(r.err(), Some(BridgeError::CallbackError("boom".to_string())));
    assert_eq!(count.get(), 5);
}

#[test]
fn play_boxes_trajectory() {
    let mut s = open_session();
    let h = make_agent(&mut s);
    let t = play(&mut s, &h, 2, &noop).expect("play");
    assert_eq!(t.owner, Owner::Unrooted(1));
    assert!(!s.is_safe());
    match s.get(&t) {
        Record::Trajectory(tr) => assert_eq!(tr.actions, vec!["noop".to_string(), "noop".to_string()]),
        other => panic!("unexpected record {:?}", other),
    }
    let not_agent = text(&mut s, "x");
    assert!(matches!(play(&mut s, &not_agent, 2, &noop), Err(BridgeError::TypeMismatch)));
}

#[test]
fn callback_call_round_trip() {
    let mut s = open_session();
    let h = make_agent(&mut s);
    let agent = Agent::unbox(&s, &h).expect("unbox");
    let call: PendingCall = agent.begin_act(&mut s, Environment { s: String::new() });
    assert_eq!(s.depth(), 1);
    assert_eq!(call.arg.owner, Owner::Frame(call.frame));
    assert!(matches!(s.get(&call.arg), Record::Environment(_)));
    let reply = Ok(Record::Action(Action { s: "jump".to_string() }));
    let a = finish_act(&mut s, &call, reply).expect("action");
    assert_eq!(a.s, "jump");
    assert_eq!(s.depth(), 0);
    assert!(!s.is_live(&call.arg));
    assert_eq!(CALL_FRAME_SLOTS, 3);
}

#[test]
fn callback_errors_are_reported() {
    let mut s = open_session();
    let h = make_agent(&mut s);
    let agent = Agent::unbox(&s, &h).expect("unbox");
    let call = agent.begin_act(&mut s, Environment { s: String::new() });
    let r = finish_act(&mut s, &call, Err("MethodError".to_string()));
    assert_eq!(r.err(), Some(BridgeError::CallbackError("MethodError".to_string())));
    assert_eq!(s.depth(), 0);
    let call = agent.begin_act(&mut s, Environment { s: String::new() });
    let r = finish_act(&mut s, &call, Ok(Record::Text("jump".to_string())));
    assert_eq!(r.err(), Some(BridgeError::TypeMismatch));
    assert_eq!(s.depth(), 0);
    assert_eq!(s.next_frame_id(), 2);
}

#[test]
fn reply_mapping() {
    let ok = agent_bridge::callback::action_from_reply(Ok(Record::Action(Action { s: "noop".to_string() })));
    assert_eq!(ok.expect("action").s, "noop");
    let raised = agent_bridge::callback::action_from_reply(Err("boom".to_string()));
    assert_eq!(raised.err(), Some(BridgeError::CallbackError("boom".to_string())));
    let other = agent_bridge::callback::action_from_reply(Ok(Record::Closure(1)));
    assert_eq!(other.err(), Some(BridgeError::TypeMismatch));
    assert_eq!(Environment::fresh().s, "[]");
}
