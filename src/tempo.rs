//! The inline tempo field: a read-only display that turns into a numeric
//! text field when clicked, and emits a new tempo when the edit is committed.
use vstd::prelude::*;
use crate::button::{handle_event, state_for, Bounds, ButtonState, Transform};
use crate::event::{GuiEvent, KeyEventKey, KeyEventType, MouseEventType, PointerButton};

verus! {

/// Most digits that typing appends to the buffer.
pub const MAX_TYPED_DIGITS: usize = 3;

pub open spec fn is_digit(c: char) -> bool {
    '0' <= c && c <= '9'
}

pub open spec fn all_digits(s: Seq<char>) -> bool {
    forall|i: int| 0 <= i < s.len() ==> is_digit(#[trigger] s[i])
}

/// The number that a string of decimal digits denotes.
pub open spec fn digits_value(s: Seq<char>) -> nat
    decreases s.len(),
{
    if s.len() == 0 {
        0
    } else {
        digits_value(s.drop_last()) * 10 + (s.last() as nat - '0' as nat) as nat
    }
}

/// The decimal text of `n`, without leading zeros.
pub open spec fn decimal_of(n: nat) -> Seq<char>
    decreases n,
{
    if n < 10 {
        seq![((n + '0' as nat) as u8) as char]
    } else {
        decimal_of(n / 10).push((((n % 10) + '0' as nat) as u8) as char)
    }
}

/// One key press applied to an edit buffer: a digit replaces a selected
/// buffer, or is appended while fewer than three characters are held;
/// Backspace clears a selected buffer, or drops the last character; other
/// keys leave the buffer alone.
pub open spec fn key_effect(selected: bool, buffer: Seq<char>, key: KeyEventKey) -> (bool, Seq<char>) {
    match key {
        KeyEventKey::Char(c) => if is_digit(c) {
            if selected {
                (false, seq![c])
            } else if buffer.len() < MAX_TYPED_DIGITS {
                (false, buffer.push(c))
            } else {
                (false, buffer)
            }
        } else {
            (selected, buffer)
        },
        KeyEventKey::Backspace => if selected {
            (selected, Seq::empty())
        } else if buffer.len() > 0 {
            (selected, buffer.drop_last())
        } else {
            (selected, buffer)
        },
        _ => (selected, buffer),
    }
}

/// Edit state as `(editing, selected, buffer)`.
pub type EditState = (bool, bool, Seq<char>);

/// A left-button press at a screen position, if `event` is one.
pub open spec fn left_press(event: Option<GuiEvent>) -> bool {
    match event {
        Some(e) => e.pressed_button() == Some(PointerButton::Left),
        None => false,
    }
}

/// A left-button press that lands outside the field.
pub open spec fn left_press_outside(transform: Transform, bounds: Bounds, event: Option<GuiEvent>) -> bool {
    left_press(event) && !transform.maps_into(bounds, event.unwrap().pointer_position().unwrap())
}

/// The key of a key-press event.
pub open spec fn key_pressed(event: Option<GuiEvent>) -> Option<KeyEventKey> {
    match event {
        Some(GuiEvent::KeyEvent(KeyEventType::Pressed, k)) => Some(k),
        _ => None,
    }
}

/// State after a frame's click: a left click inside starts editing with the
/// current tempo selected.
pub open spec fn after_click(
    s: EditState,
    transform: Transform,
    bounds: Bounds,
    event: Option<GuiEvent>,
    bpm: u32,
) -> EditState {
    if left_press(event) && state_for(transform, bounds, event) == ButtonState::Pressed {
        (true, true, decimal_of(bpm as nat))
    } else {
        s
    }
}

/// State after the frame's key press, applied while editing.
pub open spec fn after_key(s: EditState, event: Option<GuiEvent>) -> EditState {
    if s.0 && key_pressed(event).is_some() {
        let (sel, text) = key_effect(s.1, s.2, key_pressed(event).unwrap());
        (true, sel, text)
    } else {
        s
    }
}

/// The frame ends the edit: a left click outside the field, or Enter or
/// Escape while editing.
pub open spec fn frame_commits(
    s: EditState,
    transform: Transform,
    bounds: Bounds,
    event: Option<GuiEvent>,
) -> bool {
    left_press_outside(transform, bounds, event) || (s.0 && (key_pressed(event) == Some(
        KeyEventKey::Enter,
    ) || key_pressed(event) == Some(KeyEventKey::Esc)))
}

/// The tempo field and its edit state.
pub struct TempoView {
    button_state: ButtonState,
    editing: bool,
    selected: bool,
    buffer: Vec<char>,
}

impl TempoView {
    /// Hover / press state of the field from the last frame's event.
    pub closed spec fn look(&self) -> ButtonState {
        self.button_state
    }

    pub closed spec fn is_editing(&self) -> bool {
        self.editing
    }

    /// In replace-on-type mode: the next digit replaces the buffer.
    pub closed spec fn is_selected(&self) -> bool {
        self.selected
    }

    pub closed spec fn text(&self) -> Seq<char> {
        self.buffer@
    }

    /// While editing, the buffer holds at most ten decimal digits.
    pub open spec fn wf(&self) -> bool {
        &&& all_digits(self.text())
        &&& self.text().len() <= 10
    }

    /// The tempo that committing now would emit.
    pub open spec fn commit_value(&self) -> Option<u64> {
        if self.is_editing() && self.text().len() > 0 {
            Some(digits_value(self.text()) as u64)
        } else {
            None
        }
    }

    pub fn new() -> (r: TempoView)
        ensures
            r.wf(),
            !r.is_editing(),
            r.look() == ButtonState::Default,
    {
        TempoView {
            button_state: ButtonState::Default,
            editing: false,
            selected: false,
            buffer: Vec::new(),
        }
    }

    pub fn button_state(&self) -> (r: ButtonState)
        ensures
            r == self.look(),
    {
        self.button_state
    }

    pub fn editing(&self) -> (r: bool)
        ensures
            r == self.is_editing(),
    {
        self.editing
    }

    pub fn selected(&self) -> (r: bool)
        ensures
            r == self.is_selected(),
    {
        self.selected
    }

    /// The characters of the edit buffer.
    pub fn buffer(&self) -> (r: Vec<char>)
        ensures
            r@ == self.text(),
    {
        self.buffer.clone()
    }

    /// Enters editing with the buffer seeded from `bpm` and selected.
    pub fn start_editing(&mut self, bpm: u32)
        ensures
            final(self).wf(),
            final(self).is_editing(),
            final(self).is_selected(),
            final(self).text() == decimal_of(bpm as nat),
            final(self).look() == old(self).look(),
    {
        let mut digits: Vec<char> = Vec::new();
        push_decimal(bpm, &mut digits);
        proof {
            lemma_decimal_digits(bpm as nat);
            lemma_pow10_ten();
            lemma_decimal_len(bpm as nat, 10);
        }
        self.buffer = digits;
        self.editing = true;
        self.selected = true;
    }

    pub open spec fn edit_state(&self) -> EditState {
        (self.is_editing(), self.is_selected(), self.text())
    }

    /// Runs one frame of the field drawn under `transform` at local `bounds`,
    /// showing tempo `bpm`. Returns the tempo to set when the frame commits an
    /// edit whose buffer holds digits.
    pub fn on_frame(
        &mut self,
        transform: &Transform,
        bounds: &Bounds,
        event: Option<GuiEvent>,
        bpm: u32,
    ) -> (r: Option<u64>)
        requires
            old(self).wf(),
            transform.wf(),
        ensures
            final(self).wf(),
            final(self).look() == state_for(*transform, *bounds, event),
            ({
                let s1 = after_click(old(self).edit_state(), *transform, *bounds, event, bpm);
                let s2 = after_key(s1, event);
                if frame_commits(s1, *transform, *bounds, event) {
                    &&& r == (if s2.0 && s2.2.len() > 0 {
                        Some(digits_value(s2.2) as u64)
                    } else {
                        None
                    })
                    &&& !final(self).is_editing()
                } else {
                    r.is_none() && final(self).edit_state() == s2
                }
            }),
    {
        let hit = handle_event(transform, bounds, event);
        self.button_state = hit.state;
        if let Some(PointerButton::Left) = hit.clicked {
            self.start_editing(bpm);
        }
        let mut commit: bool = false;
        if let Some(GuiEvent::MouseEvent(MouseEventType::MouseDown(PointerButton::Left), pos)) = event {
            if !transform.contains(bounds, pos) {
                commit = true;
            }
        }
        if self.editing {
            if let Some(GuiEvent::KeyEvent(KeyEventType::Pressed, key)) = event {
                match key {
                    KeyEventKey::Enter | KeyEventKey::Esc => {
                        commit = true;
                    },
                    _ => {
                        self.press_key(key);
                    },
                }
            }
        }
        if commit {
            self.commit()
        } else {
            None
        }
    }

    /// Applies a pressed key to the buffer while editing.
    pub fn press_key(&mut self, key: KeyEventKey)
        requires
            old(self).wf(),
        ensures
            final(self).wf(),
            final(self).look() == old(self).look(),
            final(self).is_editing() == old(self).is_editing(),
            old(self).is_editing() ==> (final(self).is_selected(), final(self).text()) == key_effect(
                old(self).is_selected(),
                old(self).text(),
                key,
            ),
            !old(self).is_editing() ==> final(self).is_selected() == old(self).is_selected()
                && final(self).text() == old(self).text(),
    {
        if !self.editing {
            return;
        }
        match key {
            KeyEventKey::Char(c) => {
                if '0' <= c && c <= '9' {
                    if self.selected {
                        self.buffer.clear();
                    }
                    if self.buffer.len() < MAX_TYPED_DIGITS {
                        self.buffer.push(c);
                    }
                    self.selected = false;
                    proof {
                        if old(self).selected {
                            assert(self.buffer@ =~= seq![c]);
                        }
                    }
                }
            },
            KeyEventKey::Backspace => {
                if self.selected {
                    self.buffer.clear();
                    proof {
                        assert(self.buffer@ =~= Seq::<char>::empty());
                    }
                } else if self.buffer.len() > 0 {
                    self.buffer.pop();
                    proof {
                        assert(self.buffer@ =~= old(self).buffer@.drop_last());
                    }
                }
            },
            _ => {},
        }
    }

    /// Ends editing: emits the buffer's value as the new tempo when it holds
    /// any digit, nothing otherwise; the field returns to its display state.
    pub fn commit(&mut self) -> (r: Option<u64>)
        requires
            old(self).wf(),
        ensures
            r == old(self).commit_value(),
            final(self).wf(),
            !final(self).is_editing(),
            final(self).look() == old(self).look(),
    {
        let r: Option<u64> = if self.editing && self.buffer.len() > 0 {
            Some(parse_digits(&self.buffer))
        } else {
            None
        };
        self.editing = false;
        self.selected = false;
        self.buffer = Vec::new();
        r
    }
}

/// Appends the decimal text of `n` to `out`.
fn push_decimal(n: u32, out: &mut Vec<char>)
    ensures
        final(out)@ == old(out)@ + decimal_of(n as nat),
    decreases n,
{
    if n >= 10 {
        push_decimal(n / 10, out);
    }
    let d: u8 = (n % 10) as u8;
    let c: char = (d + 48u8) as char;
    out.push(c);
    proof {
        reveal_with_fuel(decimal_of, 2);
        assert('0' as nat == 48);
        if n >= 10 {
            assert(old(out)@ + decimal_of(n as nat / 10) + seq![c] =~= old(out)@ + decimal_of(n as nat));
        } else {
            assert(old(out)@ + seq![c] =~= old(out)@ + decimal_of(n as nat));
        }
    }
}

/// The decimal text of `n` is made of digits and denotes `n`.
proof fn lemma_decimal_digits(n: nat)
    ensures
        all_digits(decimal_of(n)),
        digits_value(decimal_of(n)) == n,
    decreases n,
{
    assert('0' as nat == 48);
    if n >= 10 {
        lemma_decimal_digits(n / 10);
        let s = decimal_of(n);
        let c = (((n % 10) + '0' as nat) as u8) as char;
        assert(c as nat == n % 10 + 48);
        assert(s.last() == c);
        assert(s.drop_last() =~= decimal_of(n / 10));
        assert(n == (n / 10) * 10 + n % 10);
        assert(s.len() > 0);
        assert(digits_value(s) == digits_value(s.drop_last()) * 10 + (n % 10));
    } else {
        let s = decimal_of(n);
        let c = ((n + '0' as nat) as u8) as char;
        assert(c as nat == n + 48);
        assert(s.last() == c);
        assert(s.drop_last() =~= Seq::<char>::empty());
        assert(s.len() > 0);
        assert(digits_value(s) == digits_value(s.drop_last()) * 10 + n);
    }
}

pub open spec fn pow10(k: nat) -> nat
    decreases k,
{
    if k == 0 {
        1
    } else {
        10 * pow10((k - 1) as nat)
    }
}

proof fn lemma_pow10_mono(i: nat, j: nat)
    requires
        i <= j,
    ensures
        pow10(i) <= pow10(j),
    decreases j,
{
    if i < j {
        lemma_pow10_mono(i, (j - 1) as nat);
    }
}

/// The decimal text of a number below `10^k` has at most `k` digits.
proof fn lemma_decimal_len(n: nat, k: nat)
    requires
        n < pow10(k),
        k >= 1,
    ensures
        decimal_of(n).len() <= k,
    decreases k,
{
    if n >= 10 {
        assert(k >= 2) by {
            if k == 1 {
                assert(pow10(1) == 10 * pow10(0));
            }
        }
        let p = pow10((k - 1) as nat);
        assert(n / 10 < p) by (nonlinear_arith)
            requires
                n < 10 * p,
        ;
        lemma_decimal_len(n / 10, (k - 1) as nat);
    }
}

proof fn lemma_pow10_ten()
    ensures
        pow10(10) == 10_000_000_000,
{
    reveal_with_fuel(pow10, 11);
}

/// The value of a buffer of at most ten digits.
fn parse_digits(s: &Vec<char>) -> (r: u64)
    requires
        all_digits(s@),
        s@.len() <= 10,
    ensures
        r == digits_value(s@),
{
    let mut v: u64 = 0;
    let mut i: usize = 0;
    while i < s.len()
        invariant
            i <= s@.len() <= 10,
            all_digits(s@),
            v == digits_value(s@.subrange(0, i as int)),
            v < pow10(i as nat),
            pow10(i as nat) <= 10_000_000_000,
        decreases s@.len() - i,
    {
        let c: char = s[i];
        let d: u64 = (c as u32 - 48u32) as u64;
        proof {
            assert(is_digit(s@[i as int]));
            assert(s@.subrange(0, i + 1).drop_last() =~= s@.subrange(0, i as int));
            assert('0' as nat == 48);
            lemma_pow10_ten();
            lemma_pow10_mono((i + 1) as nat, 10);
        }
        v = v * 10 + d;
        i = i + 1;
    }
    assert(s@.subrange(0, s@.len() as int) =~= s@);
    v
}

} // verus!
