use remud::actions::Action;
use remud::client::EntityId;
use remud::npc::{
    build_tx_map, replace_text, Effect, FollowState, Observation, ParamValue, Params, StateId,
    StateMachine, StateMachineBuilder, StateMachines, Transition, TxEntry, WanderState,
};
use remud::persist::room::Direction;

fn params(entries: Vec<(&str, ParamValue)>) -> Params {
    Params { entries: entries.into_iter().map(|(k, v)| (k.to_string(), v)).collect() }
}

fn pair(when: Transition, then: StateId) -> TxEntry {
    TxEntry::Pair { when: Some(when), then: Some(then) }
}

fn timer(e: &Effect) -> (String, u64) {
    match e {
        Effect::StartTimer { name, millis } => (name.clone(), *millis),
        _ => panic!("expected a timer"),
    }
}

#[test]
fn wander_defaults_and_bounds() {
    let w = WanderState::new(&params(vec![]), &vec![]);
    assert!(!w.find_player);
    assert_eq!((w.min_stay, w.max_stay), (10_000, 60_000));
    assert_eq!((w.min_wanders, w.max_wanders), (2, 5));
    assert!(w.endless);

    let w = WanderState::new(
        &params(vec![
            ("find_player", ParamValue::Bool(true)),
            ("min_stay", ParamValue::Int(500)),
            ("max_stay", ParamValue::Int(100)),
            ("max_wanders", ParamValue::Int(-3)),
        ]),
        &vec![],
    );
    assert!(w.find_player);
    assert_eq!((w.min_stay, w.max_stay), (500, 500));
    assert!(!w.endless);
    assert_eq!((w.min_wanders, w.max_wanders), (2, 5));
}

#[test]
fn later_transitions_win() {
    let m = build_tx_map(&vec![
        pair(Transition::Done, StateId::Chase),
        TxEntry::NotAMap,
        TxEntry::Pair { when: Some(Transition::SawTarget), then: None },
        pair(Transition::Done, StateId::Wander),
    ]);
    assert_eq!(m.done, Some(StateId::Wander));
    assert_eq!(m.saw_target, None);
}

#[test]
fn name_replacement() {
    assert_eq!(replace_text("Hi ${name}, bye ${name}!", "${name}", "Ted"), "Hi Ted, bye Ted!");
    assert_eq!(replace_text("${nam", "${name}", "Ted"), "${nam");
}

#[test]
fn wander_steps() {
    let mut w = WanderState::new(
        &params(vec![
            ("find_player", ParamValue::Bool(true)),
            ("min_stay", ParamValue::Int(5)),
            ("max_stay", ParamValue::Int(9)),
            ("min_wanders", ParamValue::Int(1)),
            ("max_wanders", ParamValue::Int(1)),
        ]),
        &vec![],
    );
    let e = w.on_enter();
    let (name, ms) = timer(&e[0]);
    assert_eq!(name, "wander_state_timer");
    assert!((5..=9).contains(&ms));
    assert_eq!(w.current_max_wanders, 1);
    assert_eq!(w.decide(true), Some(Transition::SawTarget));
    assert_eq!(w.decide(false), None);
    assert!(w.act(EntityId(1), false, &vec![Direction::North]).is_empty());
    let e = w.act(EntityId(1), true, &vec![Direction::North]);
    assert_eq!(e.len(), 2);
    match &e[1] {
        Effect::Queue(Action::Move(m)) => assert_eq!(m.direction, Direction::North),
        _ => panic!(),
    }
    assert_eq!(w.decide(false), Some(Transition::Done));
}

#[test]
fn follow_steps() {
    let mut f = FollowState::new(
        &params(vec![("found_say", ParamValue::TextList(vec![None, Some("Hello, ${name}.".to_string())]))]),
        &vec![pair(Transition::Done, StateId::Wander)],
    );
    assert_eq!((f.min_wait, f.max_wait), (1000, 5000));
    let e = f.on_enter(EntityId(9), &vec![EntityId(4)], &vec!["Ann".to_string()]);
    assert_eq!(f.target, Some(EntityId(4)));
    match &e[0] {
        Effect::Queue(Action::Say(s)) => assert_eq!(s.message, "Hello, Ann."),
        _ => panic!(),
    }
    let (t, e) = f.decide(&vec![], &vec![(Direction::East, vec![EntityId(4)])]);
    assert_eq!(t, None);
    assert_eq!(f.move_direction, Some(Direction::East));
    assert_eq!(timer(&e[0]).0, "follow_state_timer");
    let e = f.act(EntityId(9), true);
    match &e[0] {
        Effect::Queue(Action::Move(m)) => assert_eq!(m.direction, Direction::East),
        _ => panic!(),
    }
    assert_eq!(f.move_direction, None);
    let (t, _) = f.decide(&vec![], &vec![]);
    assert_eq!(t, Some(Transition::Done));
    assert_eq!(f.output_state(Transition::Done), Some(StateId::Wander));
    f.on_exit();
    assert_eq!(f.target, None);
}

#[test]
fn machines_build_and_run() {
    assert_eq!(
        StateMachineBuilder::new().build().err(),
        Some("You must configure states for all state machines. No states were found.".to_string())
    );
    let mut b = StateMachineBuilder::new();
    b.add_state(
        &StateId::Wander,
        params(vec![("find_player", ParamValue::Bool(true))]),
        vec![pair(Transition::SawTarget, StateId::Chase)],
    );
    b.add_state(&StateId::Chase, params(vec![]), vec![pair(Transition::Done, StateId::Wander)]);
    let mut m: StateMachine = b.build().ok().unwrap();
    assert_eq!(m.current, StateId::Wander);
    let obs = Observation {
        players: vec![EntityId(3)],
        names: vec!["Bo".to_string()],
        exits: vec![],
        wander_timer_done: false,
        follow_timer_done: false,
    };
    let e = m.on_update(EntityId(8), &obs);
    assert_eq!(m.current, StateId::Chase);
    assert!(e.is_empty());
    assert_eq!(m.chase.as_ref().unwrap().target, Some(EntityId(3)));

    let mut stack = StateMachines::new(m);
    assert_eq!(stack.stack.len(), 1);
    assert!(stack.pop().is_some());
    assert!(stack.pop().is_none());
}
