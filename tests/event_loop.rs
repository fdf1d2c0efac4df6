use lifegrid::cell::Grid;
use lifegrid::event_loop::{Action, ControlFlow, EventLoop};

#[test]
fn loop_starts_with_continue() {
    let el = EventLoop::new(Grid::new(3, 3));
    assert_eq!(el.control(), ControlFlow::Continue);
    assert_eq!(el.next_action(0), Action::Invoke);
    assert_eq!(el.state().len(), 9);
}

#[test]
fn continue_then_wait_then_stop() {
    // the directives set by three successive calls: Wait(50), then Stop
    let mut el = EventLoop::new(Grid::new(3, 3));
    let mut calls: Vec<u128> = Vec::new();
    let directives = [ControlFlow::Wait(50), ControlFlow::Stop, ControlFlow::Continue];
    // each pass is simulated by a clock in milliseconds since it began
    let mut exited = false;
    for _pass in 0..4 {
        let mut elapsed: u128 = 0;
        loop {
            match el.next_action(elapsed) {
                Action::Invoke => {
                    let (grid, control) = el.parts_mut();
                    grid.change_state(calls.len(), true);
                    *control = directives[calls.len()];
                    calls.push(elapsed);
                    break;
                }
                Action::Spin => elapsed += 1,
                Action::Exit => {
                    exited = true;
                    break;
                }
            }
        }
        if exited {
            break;
        }
    }
    assert!(exited);
    assert_eq!(calls, vec![0, 50]);
    let grid = el.into_state();
    assert!(grid.is_alive(0) && grid.is_alive(1) && !grid.is_alive(2));
}

#[test]
fn wait_decides_by_elapsed_time() {
    let mut el = EventLoop::new(Grid::new(2, 2));
    *el.parts_mut().1 = ControlFlow::Wait(500);
    assert_eq!(el.next_action(0), Action::Spin);
    assert_eq!(el.next_action(499), Action::Spin);
    assert_eq!(el.next_action(500), Action::Invoke);
    assert_eq!(el.next_action(10_000), Action::Invoke);
}

#[test]
fn stop_exits_at_any_time() {
    let mut el = EventLoop::new(Grid::new(2, 2));
    *el.parts_mut().1 = ControlFlow::Stop;
    assert_eq!(el.next_action(0), Action::Exit);
    assert_eq!(el.next_action(u128::MAX), Action::Exit);
}

#[test]
fn wait_zero_invokes_at_once() {
    let mut el = EventLoop::new(Grid::new(2, 2));
    *el.parts_mut().1 = ControlFlow::Wait(0);
    assert_eq!(el.next_action(0), Action::Invoke);
}
