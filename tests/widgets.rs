use loopers_gui::button::{handle_event, Bounds, ButtonState, Transform};
use loopers_gui::event::{GuiEvent, KeyEventKey, KeyEventType, MouseEventType, PointerButton, Position};
use loopers_gui::tempo::TempoView;

fn bounds() -> Bounds {
    Bounds { left: 0, top: 0, right: 30, bottom: 20 }
}

fn at(kind: MouseEventType, x: i64, y: i64) -> Option<GuiEvent> {
    Some(GuiEvent::MouseEvent(kind, Position { x, y }))
}

fn key(k: KeyEventKey) -> Option<GuiEvent> {
    Some(GuiEvent::KeyEvent(KeyEventType::Pressed, k))
}

#[test]
fn hover_press_and_default() {
    let t = Transform::identity().translated(100, 50);
    let r = handle_event(&t, &bounds(), at(MouseEventType::Moved, 110, 55));
    assert_eq!(r.state, ButtonState::Hover);
    assert_eq!(r.clicked, None);
    let r = handle_event(&t, &bounds(), at(MouseEventType::MouseDown(PointerButton::Left), 110, 55));
    assert_eq!(r.state, ButtonState::Pressed);
    assert_eq!(r.clicked, Some(PointerButton::Left));
    let r = handle_event(&t, &bounds(), at(MouseEventType::MouseDown(PointerButton::Left), 10, 5));
    assert_eq!(r.state, ButtonState::Default);
    assert_eq!(r.clicked, None);
    let r = handle_event(&t, &bounds(), at(MouseEventType::MouseUp(PointerButton::Left), 129, 69));
    assert_eq!(r.state, ButtonState::Hover);
    let r = handle_event(&t, &bounds(), at(MouseEventType::Moved, 130, 55));
    assert_eq!(r.state, ButtonState::Default);
    assert_eq!(handle_event(&t, &bounds(), None).state, ButtonState::Default);
    assert_eq!(handle_event(&t, &bounds(), key(KeyEventKey::Enter)).state, ButtonState::Default);
}

#[test]
fn scaled_transform_maps_back() {
    let t = Transform { tx: 10, ty: 0, scale_x: 2, scale_y: 2 };
    assert!(t.contains(&bounds(), Position { x: 69, y: 39 }));
    assert!(!t.contains(&bounds(), Position { x: 70, y: 10 }));
    assert!(!t.contains(&bounds(), Position { x: 9, y: 10 }));
}

fn editing_view(bpm: u32) -> TempoView {
    let mut v = TempoView::new();
    let t = Transform::identity();
    let r = v.on_frame(&t, &bounds(), at(MouseEventType::MouseDown(PointerButton::Left), 5, 5), bpm);
    assert_eq!(r, None);
    assert!(v.editing());
    assert!(v.selected());
    v
}

#[test]
fn commit_seeded_tempo() {
    let mut v = editing_view(120);
    assert_eq!(v.buffer(), vec!['1', '2', '0']);
    assert_eq!(v.button_state(), ButtonState::Pressed);
    let r = v.on_frame(&Transform::identity(), &bounds(), key(KeyEventKey::Enter), 120);
    assert_eq!(r, Some(120));
    assert!(!v.editing());
}

#[test]
fn commit_empty_emits_nothing() {
    let mut v = editing_view(120);
    v.press_key(KeyEventKey::Backspace);
    assert!(v.buffer().is_empty());
    let r = v.on_frame(&Transform::identity(), &bounds(), key(KeyEventKey::Esc), 120);
    assert_eq!(r, None);
    assert!(!v.editing());
}

#[test]
fn backspace_to_empty_then_commit_emits_nothing() {
    let mut v = editing_view(95);
    v.press_key(KeyEventKey::Char('7'));
    assert!(!v.selected());
    assert_eq!(v.buffer(), vec!['7']);
    v.press_key(KeyEventKey::Backspace);
    v.press_key(KeyEventKey::Backspace);
    assert!(v.buffer().is_empty());
    assert_eq!(v.commit(), None);
}

#[test]
fn typing_replaces_then_appends_up_to_three() {
    let mut v = editing_view(120);
    v.press_key(KeyEventKey::Char('9'));
    v.press_key(KeyEventKey::Char('a'));
    v.press_key(KeyEventKey::Char('0'));
    v.press_key(KeyEventKey::Char('5'));
    v.press_key(KeyEventKey::Char('1'));
    assert_eq!(v.buffer(), vec!['9', '0', '5']);
    // a click outside commits
    let r = v.on_frame(
        &Transform::identity(),
        &bounds(),
        at(MouseEventType::MouseDown(PointerButton::Left), 300, 5),
        120,
    );
    assert_eq!(r, Some(905));
    assert!(!v.editing());
}

#[test]
fn keys_are_ignored_when_not_editing() {
    let mut v = TempoView::new();
    let r = v.on_frame(&Transform::identity(), &bounds(), key(KeyEventKey::Enter), 120);
    assert_eq!(r, None);
    v.press_key(KeyEventKey::Char('1'));
    assert!(v.buffer().is_empty());
    assert_eq!(v.commit(), None);
}

#[test]
fn right_click_does_not_edit() {
    let mut v = TempoView::new();
    let r = v.on_frame(
        &Transform::identity(),
        &bounds(),
        at(MouseEventType::MouseDown(PointerButton::Right), 5, 5),
        120,
    );
    assert_eq!(r, None);
    assert!(!v.editing());
    assert_eq!(v.button_state(), ButtonState::Pressed);
}

#[test]
fn large_tempo_seeds_all_digits() {
    let v = editing_view(4_294_967_295);
    assert_eq!(v.buffer().len(), 10);
    let mut v = v;
    assert_eq!(v.commit(), Some(4_294_967_295));
    let mut z = editing_view(0);
    assert_eq!(z.buffer(), vec!['0']);
    assert_eq!(z.commit(), Some(0));
}
