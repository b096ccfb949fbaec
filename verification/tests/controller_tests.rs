use compact_bar::controller::{Event, EventController, HostCommand, PermissionStatus};
use compact_bar::renderer::{InputMode, TabInfo};

fn tabs_with_active(count: usize, active: usize) -> Vec<TabInfo> {
    let mut tabs: Vec<TabInfo> = Vec::new();
    for position in 0..count {
        tabs.push(TabInfo { position, active: position == active });
    }
    tabs
}

fn granted() -> Event {
    Event::PermissionRequestResult(PermissionStatus::Granted)
}

fn denied() -> Event {
    Event::PermissionRequestResult(PermissionStatus::Denied)
}

/// Drives a fresh controller to the permitted state with no buffered work.
fn active_controller() -> EventController {
    let mut controller = EventController::default();
    let (redraw, cmds) = controller.update(granted());
    assert!(!redraw);
    assert_eq!(cmds, [HostCommand::SetSelectable(false)]);
    controller
}

#[test]
fn load_requests_permissions_and_subscribes() {
    let controller = EventController::default();
    assert_eq!(
        controller.load(),
        [HostCommand::RequestPermissions, HostCommand::Subscribe]
    );
}

#[test]
fn buffered_events_signal_no_redraw_and_replay_on_grant() {
    let mut controller = EventController::default();

    // Buffered while permission is outstanding: no redraw, no commands.
    let (redraw, cmds) = controller.update(Event::ModeUpdate(InputMode::Locked));
    assert!(!redraw);
    assert!(cmds.is_empty());
    let (redraw, cmds) = controller.update(Event::TabUpdate(tabs_with_active(3, 1)));
    assert!(!redraw);
    assert!(cmds.is_empty());
    let (redraw, cmds) = controller.update(Event::Other);
    assert!(!redraw);
    assert!(cmds.is_empty());

    // The grant performs the one-time setup, replays the buffer in order,
    // and reports the OR of the replayed outcomes (two dirty updates).
    let (redraw, cmds) = controller.update(granted());
    assert!(redraw);
    assert_eq!(cmds, [HostCommand::SetSelectable(false)]);

    // The buffer really was drained through the active dispatch: the same
    // updates are now redundant and report clean.
    let (redraw, cmds) = controller.update(Event::ModeUpdate(InputMode::Locked));
    assert!(!redraw);
    assert!(cmds.is_empty());
    let (redraw, cmds) = controller.update(Event::TabUpdate(tabs_with_active(3, 1)));
    assert!(!redraw);
    assert!(cmds.is_empty());
}

#[test]
fn grant_with_empty_buffer_reports_clean() {
    let mut controller = EventController::default();
    let (redraw, cmds) = controller.update(granted());
    assert!(!redraw);
    assert_eq!(cmds, [HostCommand::SetSelectable(false)]);
}

#[test]
fn denial_emits_exactly_one_close_and_stays_inert() {
    let mut controller = EventController::default();
    let (redraw, cmds) = controller.update(Event::ModeUpdate(InputMode::Locked));
    assert!(!redraw);
    assert!(cmds.is_empty());

    let (redraw, cmds) = controller.update(denied());
    assert!(!redraw);
    assert_eq!(cmds, [HostCommand::CloseSelf]);
    assert!(!controller.permissions_granted);
    // Prior queued events are discarded.
    assert!(controller.event_queue.is_empty());

    // Still not permitted: later events are buffered, not dispatched.
    let (redraw, cmds) = controller.update(Event::ScrollUp);
    assert!(!redraw);
    assert!(cmds.is_empty());
}

#[test]
fn mode_update_drives_redraw_when_permitted() {
    let mut controller = active_controller();
    let (redraw, cmds) = controller.update(Event::ModeUpdate(InputMode::Resize));
    assert!(redraw);
    assert!(cmds.is_empty());
    let (redraw, cmds) = controller.update(Event::ModeUpdate(InputMode::Resize));
    assert!(!redraw);
    assert!(cmds.is_empty());
}

#[test]
fn tab_update_without_active_tab_is_ignored() {
    let mut controller = active_controller();
    let mut tabs = tabs_with_active(3, 0);
    tabs[0].active = false;
    let (redraw, cmds) = controller.update(Event::TabUpdate(tabs));
    assert!(!redraw);
    assert!(cmds.is_empty());
    assert_eq!(controller.renderer.tabs.len(), 0);
}

#[test]
fn click_on_inactive_tab_emits_switch_command() {
    let mut controller = active_controller();
    let (redraw, cmds) = controller.update(Event::TabUpdate(tabs_with_active(5, 2)));
    assert!(redraw);
    assert!(cmds.is_empty());

    // Click on tab 0's segment: switch, but no redraw (the host's tab
    // update will drive it).
    let (redraw, cmds) = controller.update(Event::LeftClick(0));
    assert!(!redraw);
    assert_eq!(cmds, [HostCommand::SwitchTab(0)]);

    // Click on the active tab's own segment: no action.
    let (redraw, cmds) = controller.update(Event::LeftClick(4));
    assert!(!redraw);
    assert!(cmds.is_empty());

    // Click on a separator column: no action.
    let (redraw, cmds) = controller.update(Event::LeftClick(1));
    assert!(!redraw);
    assert!(cmds.is_empty());
}

#[test]
fn scrolls_emit_switch_commands() {
    let mut controller = active_controller();
    let (_, _) = controller.update(Event::TabUpdate(tabs_with_active(3, 2)));

    let (redraw, cmds) = controller.update(Event::ScrollUp);
    assert!(!redraw);
    // One past the last valid tab, by design; the host boundary tolerates it.
    assert_eq!(cmds, [HostCommand::SwitchTab(3)]);

    let (redraw, cmds) = controller.update(Event::ScrollDown);
    assert!(!redraw);
    assert_eq!(cmds, [HostCommand::SwitchTab(1)]);
}

#[test]
fn unexpected_events_are_ignored_when_permitted() {
    let mut controller = active_controller();
    let (redraw, cmds) = controller.update(Event::Other);
    assert!(!redraw);
    assert!(cmds.is_empty());
}
