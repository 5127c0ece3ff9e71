//! The virtual keyboard: its layout, what each key shows, what pressing a
//! key does, and which pointer events a controller ray produces on it.
use vstd::prelude::*;

verus! {

/// What a key of the layout is.
#[derive(Clone, Copy, Debug, PartialEq, Eq)]
pub enum KeyDef {
    /// A character key: its lowercase and its shifted text.
    Char(&'static str, &'static str),
    Tab,
    CapsLock,
    Backspace,
    Enter,
    Shift,
    Space,
    /// A modifier key that is not wired up; an empty label leaves a gap.
    Modifier(&'static str),
}

/// A key and its width in quarters of a key unit (a standard key is four
/// quarters wide).
#[derive(Clone, Copy, Debug, PartialEq, Eq)]
pub struct Key {
    pub def: KeyDef,
    pub width: u32,
}

/// A key of width `width` quarters.
pub fn key(def: KeyDef, width: u32) -> (k: Key)
    ensures
        k == (Key { def, width }),
{
    Key { def, width }
}

/// Width of a keyboard row in key units.
pub const ROW_UNITS: u32 = 15;

/// Quarters per key unit.
pub const QUARTERS_PER_UNIT: u32 = 4;

/// The five rows of a keyboard, top to bottom.
pub struct KeyboardLayout {
    pub name: &'static str,
    pub row1: Vec<Key>,
    pub row2: Vec<Key>,
    pub row3: Vec<Key>,
    pub row4: Vec<Key>,
    pub row5: Vec<Key>,
}

/// Total width of `keys` in quarters.
pub open spec fn row_width(keys: Seq<Key>) -> int
    decreases keys.len(),
{
    if keys.len() == 0 {
        0
    } else {
        row_width(keys.drop_last()) + keys.last().width
    }
}

/// The number row of the ANSI QWERTY layout.
pub open spec fn qwerty_row1() -> Seq<Key> {
    seq![
        Key { def: KeyDef::Char("`", "~"), width: 4u32 },
        Key { def: KeyDef::Char("1", "!"), width: 4u32 },
        Key { def: KeyDef::Char("2", "@"), width: 4u32 },
        Key { def: KeyDef::Char("3", "#"), width: 4u32 },
        Key { def: KeyDef::Char("4", "$"), width: 4u32 },
        Key { def: KeyDef::Char("5", "%"), width: 4u32 },
        Key { def: KeyDef::Char("6", "^"), width: 4u32 },
        Key { def: KeyDef::Char("7", "&"), width: 4u32 },
        Key { def: KeyDef::Char("8", "*"), width: 4u32 },
        Key { def: KeyDef::Char("9", "("), width: 4u32 },
        Key { def: KeyDef::Char("0", ")"), width: 4u32 },
        Key { def: KeyDef::Char("-", "_"), width: 4u32 },
        Key { def: KeyDef::Char("=", "+"), width: 4u32 },
        Key { def: KeyDef::Backspace, width: 8u32 }
    ]
}

/// The top letter row of the ANSI QWERTY layout.
pub open spec fn qwerty_row2() -> Seq<Key> {
    seq![
        Key { def: KeyDef::Tab, width: 6u32 },
        Key { def: KeyDef::Char("q", "Q"), width: 4u32 },
        Key { def: KeyDef::Char("w", "W"), width: 4u32 },
        Key { def: KeyDef::Char("e", "E"), width: 4u32 },
        Key { def: KeyDef::Char("r", "R"), width: 4u32 },
        Key { def: KeyDef::Char("t", "T"), width: 4u32 },
        Key { def: KeyDef::Char("y", "Y"), width: 4u32 },
        Key { def: KeyDef::Char("u", "U"), width: 4u32 },
        Key { def: KeyDef::Char("i", "I"), width: 4u32 },
        Key { def: KeyDef::Char("o", "O"), width: 4u32 },
        Key { def: KeyDef::Char("p", "P"), width: 4u32 },
        Key { def: KeyDef::Char("[", "{"), width: 4u32 },
        Key { def: KeyDef::Char("]", "}"), width: 4u32 },
        Key { def: KeyDef::Char("\\", "|"), width: 6u32 }
    ]
}

/// The home row of the ANSI QWERTY layout.
pub open spec fn qwerty_row3() -> Seq<Key> {
    seq![
        Key { def: KeyDef::CapsLock, width: 7u32 },
        Key { def: KeyDef::Char("a", "A"), width: 4u32 },
        Key { def: KeyDef::Char("s", "S"), width: 4u32 },
        Key { def: KeyDef::Char("d", "D"), width: 4u32 },
        Key { def: KeyDef::Char("f", "F"), width: 4u32 },
        Key { def: KeyDef::Char("g", "G"), width: 4u32 },
        Key { def: KeyDef::Char("h", "H"), width: 4u32 },
        Key { def: KeyDef::Char("j", "J"), width: 4u32 },
        Key { def: KeyDef::Char("k", "K"), width: 4u32 },
        Key { def: KeyDef::Char("l", "L"), width: 4u32 },
        Key { def: KeyDef::Char(";", ":"), width: 4u32 },
        Key { def: KeyDef::Char("'", "\""), width: 4u32 },
        Key { def: KeyDef::Enter, width: 9u32 }
    ]
}

/// The bottom letter row of the ANSI QWERTY layout.
pub open spec fn qwerty_row4() -> Seq<Key> {
    seq![
        Key { def: KeyDef::Shift, width: 9u32 },
        Key { def: KeyDef::Char("z", "Z"), width: 4u32 },
        Key { def: KeyDef::Char("x", "X"), width: 4u32 },
        Key { def: KeyDef::Char("c", "C"), width: 4u32 },
        Key { def: KeyDef::Char("v", "V"), width: 4u32 },
        Key { def: KeyDef::Char("b", "B"), width: 4u32 },
        Key { def: KeyDef::Char("n", "N"), width: 4u32 },
        Key { def: KeyDef::Char("m", "M"), width: 4u32 },
        Key { def: KeyDef::Char(",", "<"), width: 4u32 },
        Key { def: KeyDef::Char(".", ">"), width: 4u32 },
        Key { def: KeyDef::Char("/", "?"), width: 4u32 },
        Key { def: KeyDef::Shift, width: 11u32 }
    ]
}

/// The space-bar row of the ANSI QWERTY layout.
pub open spec fn qwerty_row5() -> Seq<Key> {
    seq![
        Key { def: KeyDef::Modifier(""), width: 5u32 },
        Key { def: KeyDef::Modifier(""), width: 5u32 },
        Key { def: KeyDef::Modifier(""), width: 5u32 },
        Key { def: KeyDef::Space, width: 25u32 },
        Key { def: KeyDef::Modifier(""), width: 5u32 },
        Key { def: KeyDef::Modifier(""), width: 5u32 },
        Key { def: KeyDef::Modifier(""), width: 5u32 },
        Key { def: KeyDef::Modifier(""), width: 5u32 }
    ]
}

impl KeyboardLayout {
    /// Whether the layout's rows are exactly the ANSI QWERTY rows.
    pub open spec fn is_qwerty(&self) -> bool {
        &&& self.row1@ == qwerty_row1()
        &&& self.row2@ == qwerty_row2()
        &&& self.row3@ == qwerty_row3()
        &&& self.row4@ == qwerty_row4()
        &&& self.row5@ == qwerty_row5()
    }

    /// The ANSI QWERTY layout.
    pub fn qwerty() -> (l: KeyboardLayout)
        ensures
            l.is_qwerty(),
            l.name@ == "QWERTY"@,
    {
        KeyboardLayout {
            name: "QWERTY",
            row1: vec![
            key(KeyDef::Char("`", "~"), 4),
                key(KeyDef::Char("1", "!"), 4),
                key(KeyDef::Char("2", "@"), 4),
                key(KeyDef::Char("3", "#"), 4),
                key(KeyDef::Char("4", "$"), 4),
                key(KeyDef::Char("5", "%"), 4),
                key(KeyDef::Char("6", "^"), 4),
                key(KeyDef::Char("7", "&"), 4),
                key(KeyDef::Char("8", "*"), 4),
                key(KeyDef::Char("9", "("), 4),
                key(KeyDef::Char("0", ")"), 4),
                key(KeyDef::Char("-", "_"), 4),
                key(KeyDef::Char("=", "+"), 4),
                key(KeyDef::Backspace, 8)
            ],
            row2: vec![
            key(KeyDef::Tab, 6),
                key(KeyDef::Char("q", "Q"), 4),
                key(KeyDef::Char("w", "W"), 4),
                key(KeyDef::Char("e", "E"), 4),
                key(KeyDef::Char("r", "R"), 4),
                key(KeyDef::Char("t", "T"), 4),
                key(KeyDef::Char("y", "Y"), 4),
                key(KeyDef::Char("u", "U"), 4),
                key(KeyDef::Char("i", "I"), 4),
                key(KeyDef::Char("o", "O"), 4),
                key(KeyDef::Char("p", "P"), 4),
                key(KeyDef::Char("[", "{"), 4),
                key(KeyDef::Char("]", "}"), 4),
                key(KeyDef::Char("\\", "|"), 6)
            ],
            row3: vec![
            key(KeyDef::CapsLock, 7),
                key(KeyDef::Char("a", "A"), 4),
                key(KeyDef::Char("s", "S"), 4),
                key(KeyDef::Char("d", "D"), 4),
                key(KeyDef::Char("f", "F"), 4),
                key(KeyDef::Char("g", "G"), 4),
                key(KeyDef::Char("h", "H"), 4),
                key(KeyDef::Char("j", "J"), 4),
                key(KeyDef::Char("k", "K"), 4),
                key(KeyDef::Char("l", "L"), 4),
                key(KeyDef::Char(";", ":"), 4),
                key(KeyDef::Char("'", "\""), 4),
                key(KeyDef::Enter, 9)
            ],
            row4: vec![
            key(KeyDef::Shift, 9),
                key(KeyDef::Char("z", "Z"), 4),
                key(KeyDef::Char("x", "X"), 4),
                key(KeyDef::Char("c", "C"), 4),
                key(KeyDef::Char("v", "V"), 4),
                key(KeyDef::Char("b", "B"), 4),
                key(KeyDef::Char("n", "N"), 4),
                key(KeyDef::Char("m", "M"), 4),
                key(KeyDef::Char(",", "<"), 4),
                key(KeyDef::Char(".", ">"), 4),
                key(KeyDef::Char("/", "?"), 4),
                key(KeyDef::Shift, 11)
            ],
            row5: vec![
            key(KeyDef::Modifier(""), 5),
                key(KeyDef::Modifier(""), 5),
                key(KeyDef::Modifier(""), 5),
                key(KeyDef::Space, 25),
                key(KeyDef::Modifier(""), 5),
                key(KeyDef::Modifier(""), 5),
                key(KeyDef::Modifier(""), 5),
                key(KeyDef::Modifier(""), 5)
            ],
        }
    }
}

/// Every row of the QWERTY layout is exactly [`ROW_UNITS`] key units wide,
/// so the rows line up at both edges.
pub proof fn qwerty_rows_fill_width()
    ensures
        row_width(qwerty_row1()) == ROW_UNITS * QUARTERS_PER_UNIT,
        row_width(qwerty_row2()) == ROW_UNITS * QUARTERS_PER_UNIT,
        row_width(qwerty_row3()) == ROW_UNITS * QUARTERS_PER_UNIT,
        row_width(qwerty_row4()) == ROW_UNITS * QUARTERS_PER_UNIT,
        row_width(qwerty_row5()) == ROW_UNITS * QUARTERS_PER_UNIT,
{
    reveal_with_fuel(row_width, 15);
    assert(row_width(qwerty_row1()) == 60);
    assert(row_width(qwerty_row2()) == 60);
    assert(row_width(qwerty_row3()) == 60);
    assert(row_width(qwerty_row4()) == 60);
    assert(row_width(qwerty_row5()) == 60);
}

/// What pressing a key asks of the host.
#[derive(Clone, Copy, Debug, PartialEq, Eq)]
pub enum KeyAction {
    /// Type this text.
    SendText(&'static str),
    /// Delete the character before the cursor.
    DeleteCharacter,
    /// Nothing to send.
    NoAction,
}

/// How a key is drawn.
#[derive(Clone, Copy, Debug, PartialEq, Eq)]
pub enum KeyFace {
    /// A clickable button with this label.
    Button(&'static str),
    /// A clickable button with this label, drawn selected when the flag is set.
    Toggle(&'static str, bool),
    /// A greyed-out button with this label.
    Disabled(&'static str),
    /// An empty gap of the key's width.
    Spacer,
}

/// The result of pressing key `def` while shift is `shift`: the action and
/// the new shift state. Character keys type their shifted or unshifted text;
/// Tab, Enter and Space type a tab, a newline and a space; Backspace deletes;
/// Caps Lock and Shift toggle shift; modifier keys do nothing.
pub open spec fn spec_press(shift: bool, def: KeyDef) -> (KeyAction, bool) {
    match def {
        KeyDef::Char(lower, upper) => (KeyAction::SendText(if shift { upper } else { lower }), shift),
        KeyDef::Tab => (KeyAction::SendText("\t"), shift),
        KeyDef::CapsLock => (KeyAction::NoAction, !shift),
        KeyDef::Backspace => (KeyAction::DeleteCharacter, shift),
        KeyDef::Enter => (KeyAction::SendText("\n"), shift),
        KeyDef::Shift => (KeyAction::NoAction, !shift),
        KeyDef::Space => (KeyAction::SendText(" "), shift),
        KeyDef::Modifier(_) => (KeyAction::NoAction, shift),
    }
}

/// How key `def` is drawn while shift is `shift`.
pub open spec fn spec_face(shift: bool, def: KeyDef) -> KeyFace {
    match def {
        KeyDef::Char(lower, upper) => KeyFace::Button(if shift { upper } else { lower }),
        KeyDef::Tab => KeyFace::Button("Tab"),
        KeyDef::CapsLock => KeyFace::Toggle("Caps", shift),
        KeyDef::Backspace => KeyFace::Button("\u{232B}"),
        KeyDef::Enter => KeyFace::Button("Enter"),
        KeyDef::Shift => KeyFace::Toggle("\u{21E7} Shift", shift),
        KeyDef::Space => KeyFace::Button("Space"),
        KeyDef::Modifier(label) => if label@.len() == 0 {
            KeyFace::Spacer
        } else {
            KeyFace::Disabled(label)
        },
    }
}

/// The input-side state of the virtual keyboard.
pub struct KeyboardState {
    pub hidden: bool,
    pub layout: KeyboardLayout,
    pub is_shift: bool,
}

impl KeyboardState {
    /// A hidden QWERTY keyboard with shift off.
    pub fn new() -> (k: KeyboardState)
        ensures
            k.hidden,
            !k.is_shift,
            k.layout.is_qwerty(),
            k.layout.name@ == "QWERTY"@,
    {
        KeyboardState { hidden: true, layout: KeyboardLayout::qwerty(), is_shift: false }
    }

    /// Presses key `def`: returns what to send and updates shift.
    pub fn press(&mut self, def: KeyDef) -> (a: KeyAction)
        ensures
            (a, final(self).is_shift) == spec_press(old(self).is_shift, def),
            final(self).hidden == old(self).hidden,
            final(self).layout == old(self).layout,
    {
        match def {
            KeyDef::Char(lower, upper) => KeyAction::SendText(if self.is_shift { upper } else { lower }),
            KeyDef::Tab => KeyAction::SendText("\t"),
            KeyDef::CapsLock => {
                self.is_shift = !self.is_shift;
                KeyAction::NoAction
            },
            KeyDef::Backspace => KeyAction::DeleteCharacter,
            KeyDef::Enter => KeyAction::SendText("\n"),
            KeyDef::Shift => {
                self.is_shift = !self.is_shift;
                KeyAction::NoAction
            },
            KeyDef::Space => KeyAction::SendText(" "),
            KeyDef::Modifier(_) => KeyAction::NoAction,
        }
    }

    /// How key `def` is drawn in the current state.
    pub fn face(&self, def: KeyDef) -> (f: KeyFace)
        ensures
            f == spec_face(self.is_shift, def),
    {
        match def {
            KeyDef::Char(lower, upper) => KeyFace::Button(if self.is_shift { upper } else { lower }),
            KeyDef::Tab => KeyFace::Button("Tab"),
            KeyDef::CapsLock => KeyFace::Toggle("Caps", self.is_shift),
            KeyDef::Backspace => KeyFace::Button("\u{232B}"),
            KeyDef::Enter => KeyFace::Button("Enter"),
            KeyDef::Shift => KeyFace::Toggle("\u{21E7} Shift", self.is_shift),
            KeyDef::Space => KeyFace::Button("Space"),
            KeyDef::Modifier(label) => if label.is_empty() {
                KeyFace::Spacer
            } else {
                KeyFace::Disabled(label)
            },
        }
    }
}

/// A character key types exactly the label it shows at the moment it is
/// pressed.
pub proof fn char_key_types_its_label(shift: bool, lower: &'static str, upper: &'static str)
    ensures
        spec_face(shift, KeyDef::Char(lower, upper)) matches KeyFace::Button(label)
            && spec_press(shift, KeyDef::Char(lower, upper)).0 == KeyAction::SendText(label),
{
}

/// Caps Lock and Shift each flip shift, so pressing either twice restores
/// it; every other key leaves shift as it was.
pub proof fn shift_keys_toggle(shift: bool, def: KeyDef)
    ensures
        (def is CapsLock || def is Shift) ==> spec_press(shift, def).1 == !shift && spec_press(
            spec_press(shift, def).1,
            def,
        ).1 == shift,
        !(def is CapsLock || def is Shift) ==> spec_press(shift, def).1 == shift,
{
}

/// The keys that type no character act the same whatever the shift state:
/// Space types a space, Tab a tab, Enter a newline, Backspace deletes one
/// character, and modifier keys do nothing; only a character key's text
/// depends on shift.
pub proof fn non_character_keys_ignore_shift(shift: bool, def: KeyDef)
    ensures
        spec_press(shift, KeyDef::Space).0 == KeyAction::SendText(" "),
        spec_press(shift, KeyDef::Tab).0 == KeyAction::SendText("\t"),
        spec_press(shift, KeyDef::Enter).0 == KeyAction::SendText("\n"),
        spec_press(shift, KeyDef::Backspace).0 == KeyAction::DeleteCharacter,
        def is Modifier ==> spec_press(shift, def).0 == KeyAction::NoAction,
        !(def is Char) ==> spec_press(shift, def).0 == spec_press(!shift, def).0,
{
}

/// A character key types its lower text with shift off and its upper text
/// with shift on; Caps Lock and Shift type nothing.
pub proof fn shift_selects_character_text(lower: &'static str, upper: &'static str, shift: bool)
    ensures
        spec_press(false, KeyDef::Char(lower, upper)).0 == KeyAction::SendText(lower),
        spec_press(true, KeyDef::Char(lower, upper)).0 == KeyAction::SendText(upper),
        spec_press(shift, KeyDef::CapsLock).0 == KeyAction::NoAction,
        spec_press(shift, KeyDef::Shift).0 == KeyAction::NoAction,
{
}

/// How keys are drawn: a character key shows the text it would type now;
/// Tab, Backspace, Enter and Space show fixed labels whatever the shift
/// state; Caps Lock and Shift are toggles shown selected exactly while shift
/// is on; a modifier with no label is a gap, any other is a disabled button.
pub proof fn key_faces(shift: bool, lower: &'static str, upper: &'static str, label: &'static str)
    ensures
        spec_face(false, KeyDef::Char(lower, upper)) == KeyFace::Button(lower),
        spec_face(true, KeyDef::Char(lower, upper)) == KeyFace::Button(upper),
        spec_face(shift, KeyDef::Tab) == KeyFace::Button("Tab"),
        spec_face(shift, KeyDef::Backspace) == KeyFace::Button("\u{232B}"),
        spec_face(shift, KeyDef::Enter) == KeyFace::Button("Enter"),
        spec_face(shift, KeyDef::Space) == KeyFace::Button("Space"),
        spec_face(shift, KeyDef::CapsLock) == KeyFace::Toggle("Caps", shift),
        spec_face(shift, KeyDef::Shift) == KeyFace::Toggle("\u{21E7} Shift", shift),
        label@.len() == 0 ==> spec_face(shift, KeyDef::Modifier(label)) == KeyFace::Spacer,
        label@.len() != 0 ==> spec_face(shift, KeyDef::Modifier(label)) == KeyFace::Disabled(label),
{
}

/// A pointer event on the keyboard surface.
#[derive(Clone, Copy, Debug, PartialEq, Eq, Structural)]
pub enum PointerEvent {
    Moved,
    Pressed,
    Released,
    Gone,
}

/// Events for one frame of pointing at the keyboard: the pointer always
/// moves; when the trigger goes from released to pulled, a full click (press
/// then release) follows.
pub open spec fn spec_pointer_events(previous_click_state: bool, current_click_state: bool) -> Seq<
    PointerEvent,
> {
    if current_click_state && !previous_click_state {
        seq![PointerEvent::Moved, PointerEvent::Pressed, PointerEvent::Released]
    } else {
        seq![PointerEvent::Moved]
    }
}

/// Events for one frame of pointing at the keyboard, given the trigger state
/// in the previous and the current frame.
pub fn pointer_events(previous_click_state: bool, current_click_state: bool) -> (events: Vec<
    PointerEvent,
>)
    ensures
        events@ == spec_pointer_events(previous_click_state, current_click_state),
{
    let mut events = Vec::new();
    events.push(PointerEvent::Moved);
    if current_click_state && !previous_click_state {
        events.push(PointerEvent::Pressed);
        events.push(PointerEvent::Released);
    }
    proof {
        assert(events@ =~= spec_pointer_events(previous_click_state, current_click_state));
    }
    events
}

/// The events over consecutive frames whose trigger states are `states`
/// (frame `i + 1` sees `states[i]` as previous and `states[i + 1]` as current).
pub open spec fn events_over(states: Seq<bool>) -> Seq<PointerEvent>
    decreases states.len(),
{
    if states.len() < 2 {
        Seq::empty()
    } else {
        events_over(states.drop_last()) + spec_pointer_events(
            states[states.len() - 2],
            states[states.len() - 1],
        )
    }
}

/// Number of released-to-pulled transitions in `states`.
pub open spec fn pulls(states: Seq<bool>) -> nat
    decreases states.len(),
{
    if states.len() < 2 {
        0
    } else {
        pulls(states.drop_last()) + if states[states.len() - 1] && !states[states.len() - 2] {
            1nat
        } else {
            0nat
        }
    }
}

/// Number of occurrences of `e` in `events`.
pub open spec fn occurrences(events: Seq<PointerEvent>, e: PointerEvent) -> nat
    decreases events.len(),
{
    if events.len() == 0 {
        0
    } else {
        occurrences(events.drop_last(), e) + if events.last() == e {
            1nat
        } else {
            0nat
        }
    }
}

proof fn lemma_occurrences_concat(a: Seq<PointerEvent>, b: Seq<PointerEvent>, e: PointerEvent)
    ensures
        occurrences(a + b, e) == occurrences(a, e) + occurrences(b, e),
    decreases b.len(),
{
    if b.len() == 0 {
        assert(a + b =~= a);
    } else {
        assert((a + b).drop_last() =~= a + b.drop_last());
        lemma_occurrences_concat(a, b.drop_last(), e);
    }
}

/// Holding the trigger clicks once: over any run of frames, the keyboard
/// sees one pointer move per frame, one press per pull of the trigger (a
/// released-to-pulled transition) and as many releases as presses.
pub proof fn one_click_per_pull(states: Seq<bool>)
    ensures
        occurrences(events_over(states), PointerEvent::Pressed) == pulls(states),
        occurrences(events_over(states), PointerEvent::Released) == pulls(states),
        states.len() >= 1 ==> occurrences(events_over(states), PointerEvent::Moved) == states.len() - 1,
    decreases states.len(),
{
    if states.len() >= 2 {
        let prev = states[states.len() - 2];
        let cur = states[states.len() - 1];
        let frame = spec_pointer_events(prev, cur);
        one_click_per_pull(states.drop_last());
        lemma_occurrences_concat(events_over(states.drop_last()), frame, PointerEvent::Pressed);
        lemma_occurrences_concat(events_over(states.drop_last()), frame, PointerEvent::Released);
        lemma_occurrences_concat(events_over(states.drop_last()), frame, PointerEvent::Moved);
        reveal_with_fuel(occurrences, 4);
        if cur && !prev {
            assert(frame.drop_last().drop_last().drop_last() =~= Seq::<PointerEvent>::empty());
        } else {
            assert(frame.drop_last() =~= Seq::<PointerEvent>::empty());
        }
    }
}

} // verus!
