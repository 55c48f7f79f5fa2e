use loopers_gui::button::{Bounds, ButtonState, Transform};
use loopers_gui::event::{GuiEvent, MouseEventType, PointerButton, Position};
use loopers_gui::metric::{clock_time, MetricStructure};
use loopers_gui::page::{reconcile, select_button_frame, LooperView, MainPage};
use loopers_gui::track::{
    color_for_mode, dark_color_for_mode, loop_position, mode_button_command, transport_command,
    Command, LooperCommand, LooperMode,
};

fn ids_of(views: &[LooperView<u8>]) -> Vec<u32> {
    views.iter().map(|v| v.id).collect()
}

#[test]
fn reconcile_adds_removes_and_orders() {
    let mut views: Vec<LooperView<u8>> = Vec::new();
    reconcile(&mut views, &vec![3, 1, 2]);
    assert_eq!(ids_of(&views), vec![1, 2, 3]);
    views[1].state = ButtonState::Hover;
    views[1].waveform.store(
        loopers_gui::cache::CacheKey::Waveform { length: 1, last_time: 0, mode: LooperMode::Playing },
        4,
        4,
        9,
    );
    reconcile(&mut views, &vec![2, 5, 0]);
    assert_eq!(ids_of(&views), vec![0, 2, 5]);
    assert_eq!(views[1].state, ButtonState::Hover);
    assert_eq!(views[1].waveform.image(), Some(&9));
    assert_eq!(views[0].state, ButtonState::Default);
    assert!(views[2].waveform.image().is_none());
    reconcile(&mut views, &vec![]);
    assert!(views.is_empty());
}

#[test]
fn add_button_shown_below_five_tracks() {
    let mut page: MainPage<u8> = MainPage::new();
    assert!(page.shows_add_button());
    page.sync_tracks(&vec![1, 2, 3, 4]);
    assert!(page.shows_add_button());
    page.sync_tracks(&vec![1, 2, 3, 4, 5]);
    assert!(!page.shows_add_button());
    let b = Bounds { left: 0, top: 0, right: 30, bottom: 30 };
    let down = Some(GuiEvent::MouseEvent(
        MouseEventType::MouseDown(PointerButton::Left),
        Position { x: 40, y: 40 },
    ));
    let t = Transform::identity().translated(35, 35);
    assert_eq!(page.add_button_frame(&t, &b, down), Some(Command::AddLooper));
    assert_eq!(page.add_button, ButtonState::Pressed);
    assert_eq!(page.add_button_frame(&t, &b, None), None);
    assert_eq!(page.add_button, ButtonState::Default);
}

#[test]
fn select_button_selects_track() {
    let mut v: LooperView<u8> = LooperView::new(7);
    let b = Bounds { left: -10, top: -10, right: 10, bottom: 10 };
    let t = Transform::identity().translated(675, 30);
    let ev = Some(GuiEvent::MouseEvent(
        MouseEventType::MouseDown(PointerButton::Left),
        Position { x: 670, y: 25 },
    ));
    assert_eq!(select_button_frame(&mut v, &t, &b, ev), Some(Command::SelectLooperById(7)));
    assert_eq!(v.active_state, ButtonState::Pressed);
    let right = Some(GuiEvent::MouseEvent(
        MouseEventType::MouseDown(PointerButton::Right),
        Position { x: 670, y: 25 },
    ));
    assert_eq!(select_button_frame(&mut v, &t, &b, right), None);
}

#[test]
fn mode_transitions() {
    assert_eq!(transport_command(LooperMode::Recording, LooperMode::Recording), Some(LooperCommand::Overdub));
    assert_eq!(transport_command(LooperMode::Playing, LooperMode::Recording), Some(LooperCommand::Record));
    assert_eq!(transport_command(LooperMode::Overdubbing, LooperMode::Overdubbing), Some(LooperCommand::Play));
    assert_eq!(transport_command(LooperMode::Muted, LooperMode::Overdubbing), Some(LooperCommand::Overdub));
    assert_eq!(transport_command(LooperMode::Muted, LooperMode::Muted), Some(LooperCommand::Play));
    assert_eq!(transport_command(LooperMode::Soloed, LooperMode::Muted), Some(LooperCommand::Mute));
    assert_eq!(transport_command(LooperMode::Playing, LooperMode::Soloed), None);
    assert_eq!(transport_command(LooperMode::Playing, LooperMode::Playing), None);
    assert_eq!(
        mode_button_command(4, LooperMode::Playing, LooperMode::Muted, PointerButton::Left),
        Some(Command::Looper(LooperCommand::Mute, 4))
    );
    assert_eq!(mode_button_command(4, LooperMode::Playing, LooperMode::Muted, PointerButton::Middle), None);
    assert_eq!(mode_button_command(4, LooperMode::Playing, LooperMode::Soloed, PointerButton::Left), None);
}

#[test]
fn colors_and_loop_position() {
    assert_eq!(color_for_mode(LooperMode::Recording), (255, 0, 0));
    assert_eq!(color_for_mode(LooperMode::Muted), (135, 135, 135));
    assert_eq!(dark_color_for_mode(LooperMode::Playing), (0, 213, 0));
    assert_eq!(loop_position(48_000, LooperMode::Playing, 60_000), 12_000);
    assert_eq!(loop_position(48_000, LooperMode::Playing, -1), 47_999);
    assert_eq!(loop_position(48_000, LooperMode::Recording, 60_000), 0);
    assert_eq!(loop_position(0, LooperMode::Playing, 60_000), 0);
}

#[test]
fn beats_and_clock() {
    let m = MetricStructure { samples_per_beat: 24_000, beats_per_bar: 4, beat_unit: 4 };
    assert_eq!(m.beat(0), 0);
    assert_eq!(m.beat(23_999), 0);
    assert_eq!(m.beat(24_000), 1);
    assert_eq!(m.beat(-1), -1);
    assert_eq!(m.beat_of_measure(5), 1);
    assert_eq!(m.beat_of_measure(-1), 3);
    assert_eq!(m.measure(9), 2);
    assert_eq!(m.measure(-1), -1);
    let c = clock_time(3_723_999);
    assert_eq!((c.negative, c.hours, c.minutes, c.seconds), (false, 1, 2, 3));
    let c = clock_time(-61_000);
    assert_eq!((c.negative, c.hours, c.minutes, c.seconds), (true, 0, 1, 1));
    let c = clock_time(i64::MIN);
    assert!(c.negative);
}
