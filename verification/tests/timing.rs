use remud::actions::{Action, Who};
use remud::client::EntityId;
use remud::timing::TimedActions;

fn who(n: u64) -> Action {
    Action::Who(Who { actor: EntityId(n) })
}

fn actor(a: Option<Action>) -> Option<u64> {
    a.map(|a| a.actor().0)
}

#[test]
fn earliest_due_action_comes_first() {
    let mut t = TimedActions::new();
    t.send_at(who(1), 50);
    t.send_at(who(2), 10);
    t.send_at(who(3), 30);
    assert_eq!(actor(t.pop_ready_at(5)), None);
    assert_eq!(actor(t.pop_ready_at(20)), Some(2));
    assert_eq!(actor(t.pop_ready_at(20)), None);
    assert_eq!(actor(t.pop_ready_at(100)), Some(3));
    assert_eq!(actor(t.pop_ready_at(100)), Some(1));
    assert_eq!(actor(t.pop_ready_at(u64::MAX)), None);
}

#[test]
fn delayed_actions_wait() {
    let mut t = TimedActions::new();
    assert!(t.send_after(who(4), 60_000));
    assert!(t.pop_ready().is_none());
    assert!(t.send_after(who(5), 0));
    assert_eq!(actor(t.pop_ready()), Some(5));
}
