use termloop::event::{handler_for, plan_iteration, Action, LogicalEvent};
use termloop::event_loop::{EventLoop, LoopError, Phase, Selected};
use termloop::exit::{exit_code, Outcome};
use termloop::session::{DeviceError, TerminalMode, TerminalSession};
use termloop::source::cycle_batch;

#[test]
fn handlers_match_events() {
    assert_eq!(handler_for(LogicalEvent::InputEvent('x')), Action::Event('x'));
    assert_eq!(handler_for(LogicalEvent::<char>::Tick), Action::Update);
    assert_eq!(handler_for(LogicalEvent::<char>::AsyncRefresh), Action::UpdateDiff);
}

#[test]
fn plan_of_empty_list_is_empty() {
    let plan = plan_iteration(Vec::<LogicalEvent<u8>>::new());
    assert!(plan.is_empty());
}

#[test]
fn batch_dispatched_in_order_then_one_render() {
    let plan = plan_iteration(vec![
        LogicalEvent::InputEvent(1u8),
        LogicalEvent::AsyncRefresh,
        LogicalEvent::Tick,
        LogicalEvent::InputEvent(2u8),
    ]);
    assert_eq!(
        plan,
        vec![Action::Event(1), Action::UpdateDiff, Action::Update, Action::Event(2), Action::Draw]
    );
    assert_eq!(plan.iter().filter(|a| **a == Action::Draw).count(), 1);
}

#[test]
fn cycle_without_input_sends_tick() {
    assert_eq!(cycle_batch(Vec::<u8>::new()), vec![LogicalEvent::Tick]);
}

#[test]
fn cycle_with_input_keeps_arrival_order() {
    assert_eq!(
        cycle_batch(vec![3u8, 1, 2]),
        vec![LogicalEvent::InputEvent(3), LogicalEvent::InputEvent(1), LogicalEvent::InputEvent(2)]
    );
}

#[test]
fn scenario_tick_batch_continues() {
    let mut l: EventLoop<char> = EventLoop::new();
    let plan = l.next_actions(Selected::Batch(vec![LogicalEvent::Tick])).unwrap();
    assert_eq!(plan, vec![Action::Update, Action::Draw]);
    assert_eq!(l.current_phase(), Phase::Rendering);
    l.rendered(false);
    assert!(!l.is_terminated());
    assert_eq!(l.current_phase(), Phase::Idle);
    let again = l.next_actions(Selected::Batch(vec![LogicalEvent::Tick])).unwrap();
    assert_eq!(again, vec![Action::Update, Action::Draw]);
}

#[test]
fn scenario_quit_key_then_tick_terminates() {
    let mut session = TerminalSession::acquire(Ok(())).unwrap();
    assert_eq!(session.mode(), TerminalMode::Captured);
    let mut l: EventLoop<char> = EventLoop::new();
    let plan = l
        .next_actions(Selected::Batch(vec![LogicalEvent::InputEvent('q'), LogicalEvent::Tick]))
        .unwrap();
    assert_eq!(plan, vec![Action::Event('q'), Action::Update, Action::Draw]);
    l.rendered(true);
    assert!(l.is_terminated());
    assert!(session.release());
    assert_eq!(session.mode(), TerminalMode::Normal);
    assert_eq!(session.releases(), 1);
    assert_eq!(exit_code(Outcome::Quit), 0);
}

#[test]
fn scenario_three_refresh_signals_three_iterations() {
    let mut l: EventLoop<char> = EventLoop::new();
    let mut diffs = 0;
    let mut draws = 0;
    for _ in 0..3 {
        let plan = l.next_actions(Selected::Refresh).unwrap();
        assert_eq!(plan, vec![Action::UpdateDiff, Action::Draw]);
        diffs += plan.iter().filter(|a| **a == Action::UpdateDiff).count();
        draws += plan.iter().filter(|a| **a == Action::Draw).count();
        l.rendered(false);
    }
    assert_eq!(diffs, 3);
    assert_eq!(draws, 3);
    assert!(!l.is_terminated());
}

#[test]
fn scenario_unsupported_device_exits_nonzero() {
    let r = TerminalSession::acquire(Err(DeviceError));
    assert_eq!(r.err(), Some(DeviceError));
    assert_ne!(exit_code(Outcome::DeviceError), 0);
}

#[test]
fn lost_poll_producer_is_fatal() {
    let mut l: EventLoop<char> = EventLoop::new();
    assert_eq!(l.next_actions(Selected::PollDisconnected), Err(LoopError::ChannelDisconnected));
    assert!(l.is_terminated());
    assert_eq!(exit_code(Outcome::ChannelDisconnected), 1);
}

#[test]
fn lost_refresh_senders_are_fatal() {
    let mut l: EventLoop<char> = EventLoop::new();
    assert_eq!(l.next_actions(Selected::RefreshDisconnected), Err(LoopError::ChannelDisconnected));
    assert_eq!(l.current_phase(), Phase::Terminated);
}

#[test]
fn empty_batch_renders_nothing() {
    let mut l: EventLoop<char> = EventLoop::new();
    let plan = l.next_actions(Selected::Batch(Vec::new())).unwrap();
    assert!(plan.is_empty());
    assert_eq!(l.current_phase(), Phase::Idle);
}

#[test]
fn release_is_performed_once() {
    let mut session = TerminalSession::acquire(Ok(())).unwrap();
    assert_eq!(session.releases(), 0);
    assert!(session.release());
    assert!(!session.release());
    assert!(!session.release());
    assert_eq!(session.releases(), 1);
    assert_eq!(session.mode(), TerminalMode::Normal);
}
