use parchment::tray::{action_events, TrayAction};
use parchment::geometry::DrawRect;
use parchment::gesture::{recognize_press, recognize_starting_zone, Finger, GestureRecognizer};
use parchment::orchestrator::{
    button_flood_events, device_action, flood_burst, restore_after_run, touch_flood_events,
    Command, DeviceAction, FloodEvent, InputCommand, MainEvent, MainLoop, Received, Restore,
    TouchEvent,
};
use parchment::supervisor::RunType;

fn commands(l: &mut MainLoop<u8, u32>, e: MainEvent<u8, u32>) -> Vec<Command<u32>> {
    l.step(e)
}

#[test]
fn stop_input_broadcasts_then_joins() {
    let mut l = MainLoop::new();
    let c = commands(&mut l, MainEvent::StopInput);
    assert!(matches!(
        c.as_slice(),
        [
            Command::BroadcastInput(InputCommand::Ungrab),
            Command::BroadcastInput(InputCommand::ClearBuffer),
            Command::BroadcastInput(InputCommand::Stop),
            Command::JoinInput
        ]
    ));
    let c = commands(&mut l, MainEvent::StopRenderer);
    assert!(matches!(c.as_slice(), [Command::StopRenderThread, Command::JoinRenderer]));
    assert!(matches!(commands(&mut l, MainEvent::Exit).as_slice(), [Command::Exit]));
    assert!(matches!(commands(&mut l, MainEvent::Run(3)).as_slice(), [Command::RunDraft(3)]));
    assert!(matches!(
        commands(&mut l, MainEvent::LoadIcon("a".to_string())).as_slice(),
        [Command::StoreIcon]
    ));
}

#[test]
fn redraw_needs_a_plan() {
    let mut l = MainLoop::new();
    assert!(commands(&mut l, MainEvent::Redraw).is_empty());
    let c = commands(&mut l, MainEvent::SetDraw(Some(1)));
    assert!(matches!(c.as_slice(), [Command::Render { publish_recognizer: true }]));
    assert_eq!(l.draw, Some(1));
    assert_eq!(commands(&mut l, MainEvent::Redraw).len(), 1);
    assert!(commands(&mut l, MainEvent::SetDraw(None)).is_empty());
    assert!(commands(&mut l, MainEvent::Redraw).is_empty());
}

#[test]
fn touches_go_to_the_installed_recognizer_topmost_first() {
    let mut l = MainLoop::new();
    let f = Finger { tracking_id: 0, x: 5, y: 5 };
    assert!(commands(&mut l, MainEvent::Input(TouchEvent::Press(f))).is_empty());
    let all = DrawRect { left: 0, top: 0, width: 100, height: 100 };
    // Registered in draw order: the later one lies on top.
    let g = GestureRecognizer::new()
        .with_callback(recognize_starting_zone(all, recognize_press(1u32)))
        .with_callback(recognize_starting_zone(all, recognize_press(2u32)));
    assert!(commands(&mut l, MainEvent::SetGestureRecognizer(Some(g))).is_empty());
    let c = commands(&mut l, MainEvent::Input(TouchEvent::Press(f)));
    assert_eq!(c.len(), 1);
    match &c[0] {
        Command::Fire(m) => assert_eq!(m.action, 2),
        _ => panic!("expected a gesture to fire"),
    }
    assert!(commands(&mut l, MainEvent::Input(TouchEvent::Other)).is_empty());
    assert!(commands(&mut l, MainEvent::Input(TouchEvent::Release(f))).is_empty());
}

#[test]
fn screen_restore_choice() {
    assert_eq!(restore_after_run(RunType::Launch, true, true, true), Restore::Nothing);
    assert_eq!(restore_after_run(RunType::Continue, true, true, false), Restore::Panel);
    assert_eq!(restore_after_run(RunType::Continue, true, false, true), Restore::Clear);
    assert_eq!(restore_after_run(RunType::Continue, false, true, true), Restore::Full);
    assert_eq!(restore_after_run(RunType::Continue, false, true, false), Restore::Clear);
}

#[test]
fn device_thread_decisions() {
    assert_eq!(device_action(Received::Command(InputCommand::Stop), 4), DeviceAction::Finish);
    assert_eq!(device_action(Received::Command(InputCommand::Grab), 4), DeviceAction::Grab);
    assert_eq!(device_action(Received::Command(InputCommand::Ungrab), 4), DeviceAction::Ungrab);
    assert_eq!(device_action(Received::Command(InputCommand::ClearBuffer), 4), DeviceAction::SendFlood);
    assert_eq!(device_action(Received::Command(InputCommand::ClearBuffer), 0), DeviceAction::SkipFlood);
    assert_eq!(device_action(Received::Empty, 4), DeviceAction::Poll);
    assert_eq!(device_action(Received::Disconnected, 4), DeviceAction::Finish);
}

#[test]
fn flood_bursts_repeat_the_pattern() {
    let b = button_flood_events();
    assert_eq!(b, vec![FloodEvent { kind: 0, code: 1, value: 0 }, FloodEvent { kind: 0, code: 0, value: 1 }]);
    let t = touch_flood_events();
    assert_eq!(t.len(), 4);
    assert_eq!(t[0], FloodEvent { kind: 3, code: 0x19, value: 1 });
    let burst = flood_burst(&t, 3);
    assert_eq!(burst.len(), 12);
    assert_eq!(burst[6], t[2]);
    assert_eq!(burst[11], t[3]);
    assert!(flood_burst(&Vec::new(), 5).is_empty());
}

#[test]
fn leaving_the_shell_follows_the_shutdown_order() {
    let e = action_events::<u8, u32>(TrayAction::Exit, Some(2));
    assert!(matches!(
        e.as_slice(),
        [MainEvent::StopInput, MainEvent::Run(2), MainEvent::StopRenderer, MainEvent::Exit]
    ));
    let e = action_events::<u8, u32>(TrayAction::Exit, None);
    assert!(matches!(e.as_slice(), [MainEvent::StopInput, MainEvent::StopRenderer, MainEvent::Exit]));
    let e = action_events::<u8, u32>(TrayAction::Launch(5), Some(2));
    assert!(matches!(
        e.as_slice(),
        [MainEvent::StopInput, MainEvent::Run(5), MainEvent::StopRenderer, MainEvent::Exit]
    ));
    let e = action_events::<u8, u32>(TrayAction::Close(5), Some(2));
    assert!(matches!(e.as_slice(), [MainEvent::Redraw]));
}
