//! The editor's actions and the keys that trigger them.
use vstd::prelude::*;

verus! {
/// Something the user can ask the editor to do from the keyboard.
#[derive(Debug, Clone, Copy, PartialEq, Eq, Structural, Hash)]
pub enum Action {
    PlayStop,
    PlayFromCursor,
    CursorUp,
    CursorDown,
    CursorLeft,
    CursorRight,
    MoveUp,
    MoveDown,
    MoveLeft,
    MoveRight,
    SelectUp,
    SelectDown,
    SelectLeft,
    SelectRight,
    Delete,
    NoteOff,
    OctaveUp,
    OctaveDown,
    TransposeUp,
    TransposeDown,
    TransposeOctaveUp,
    TransposeOctaveDown,
    Escape,
    SwitchToEdit,
    SwitchToSynth,
    SynthUp,
    SynthDown,
    SynthIncrease,
    SynthDecrease,
    LoadSample,
    FillAscending,
    FillDescending,
}

/// A key of the keyboard that a binding names (by its physical position).
#[derive(Debug, Clone, Copy, PartialEq, Eq, Structural, Hash)]
pub enum KeyName {
    ArrowUp,
    ArrowDown,
    ArrowLeft,
    ArrowRight,
    Enter,
    Space,
    Escape,
    Tab,
    Delete,
    Backspace,
    Period,
    Comma,
    Num1,
    Num2,
    Num3,
    I,
    D,
    L,
}

/// The label a key is shown with.
pub open spec fn key_label(k: KeyName) -> Seq<char> {
    match k {
        KeyName::ArrowUp => "↑"@,
        KeyName::ArrowDown => "↓"@,
        KeyName::ArrowLeft => "←"@,
        KeyName::ArrowRight => "→"@,
        KeyName::Enter => "Enter"@,
        KeyName::Space => "Space"@,
        KeyName::Escape => "Esc"@,
        KeyName::Tab => "Tab"@,
        KeyName::Delete => "Del"@,
        KeyName::Backspace => "Backspace"@,
        KeyName::Period => "."@,
        KeyName::Comma => ","@,
        KeyName::Num1 => "1"@,
        KeyName::Num2 => "2"@,
        KeyName::Num3 => "3"@,
        KeyName::I => "I"@,
        KeyName::D => "D"@,
        KeyName::L => "L"@,
    }
}

/// The label a key is shown with, as a literal.
pub fn key_name(k: KeyName) -> (r: &'static str)
    ensures
        r@ == key_label(k),
{
    match k {
        KeyName::ArrowUp => "↑",
        KeyName::ArrowDown => "↓",
        KeyName::ArrowLeft => "←",
        KeyName::ArrowRight => "→",
        KeyName::Enter => "Enter",
        KeyName::Space => "Space",
        KeyName::Escape => "Esc",
        KeyName::Tab => "Tab",
        KeyName::Delete => "Del",
        KeyName::Backspace => "Backspace",
        KeyName::Period => ".",
        KeyName::Comma => ",",
        KeyName::Num1 => "1",
        KeyName::Num2 => "2",
        KeyName::Num3 => "3",
        KeyName::I => "I",
        KeyName::D => "D",
        KeyName::L => "L",
    }
}

/// A key together with the modifiers held with it.
#[derive(Debug, Clone, Copy, PartialEq, Eq, Structural)]
pub struct KeyCombo {
    pub key: KeyName,
    pub shift: bool,
    pub ctrl: bool,
    pub alt: bool,
}

/// The label of a combination: the held modifiers (Cmd, Alt, Shift, in that order) and
/// the key, joined by "+".
pub open spec fn combo_label(c: KeyCombo) -> Seq<char> {
    (if c.ctrl {
        "Cmd+"@
    } else {
        Seq::empty()
    }) + (if c.alt {
        "Alt+"@
    } else {
        Seq::empty()
    }) + (if c.shift {
        "Shift+"@
    } else {
        Seq::empty()
    }) + key_label(c.key)
}

impl KeyCombo {
    /// The key alone.
    pub fn new(key: KeyName) -> (r: KeyCombo)
        ensures
            r == (KeyCombo { key, shift: false, ctrl: false, alt: false }),
    {
        KeyCombo { key, shift: false, ctrl: false, alt: false }
    }

    /// The combination with Shift held.
    pub fn shift(self) -> (r: KeyCombo)
        ensures
            r == (KeyCombo { shift: true, ..self }),
    {
        KeyCombo { shift: true, ..self }
    }

    /// The combination with Cmd (or Ctrl) held.
    pub fn ctrl(self) -> (r: KeyCombo)
        ensures
            r == (KeyCombo { ctrl: true, ..self }),
    {
        KeyCombo { ctrl: true, ..self }
    }

    /// The combination with Alt held.
    pub fn alt(self) -> (r: KeyCombo)
        ensures
            r == (KeyCombo { alt: true, ..self }),
    {
        KeyCombo { alt: true, ..self }
    }

    /// The label the combination is shown with (see `combo_label`).
    pub fn label(self) -> (r: String)
        ensures
            r@ == combo_label(self),
    {
        let mut s = String::new();
        proof {
            reveal_strlit("Cmd+");
            reveal_strlit("Alt+");
            reveal_strlit("Shift+");
        }
        if self.ctrl {
            s.append("Cmd+");
        }
        if self.alt {
            s.append("Alt+");
        }
        if self.shift {
            s.append("Shift+");
        }
        s.append(key_name(self.key));
        assert(s@ =~= combo_label(self));
        s
    }
}

/// A key binding: what it does, its keys, and how the key reference describes it.
#[derive(Debug, Clone, Copy)]
pub struct Binding {
    pub action: Action,
    pub combo: KeyCombo,
    pub title: &'static str,
    pub description: &'static str,
    pub category: &'static str,
}

/// The number of default bindings.
pub const DEFAULT_BINDING_COUNT: usize = 33;

/// Default binding `i`: its action, key and modifiers (shift, ctrl, alt).
pub open spec fn default_keys(i: int) -> (Action, KeyName, bool, bool, bool) {
    if i == 0 {
        (Action::PlayStop, KeyName::Enter, false, false, false)
    }     else if i == 1 {
        (Action::PlayFromCursor, KeyName::Space, false, false, false)
    }     else if i == 2 {
        (Action::CursorUp, KeyName::ArrowUp, false, false, false)
    }     else if i == 3 {
        (Action::CursorDown, KeyName::ArrowDown, false, false, false)
    }     else if i == 4 {
        (Action::CursorLeft, KeyName::ArrowLeft, false, false, false)
    }     else if i == 5 {
        (Action::CursorRight, KeyName::ArrowRight, false, false, false)
    }     else if i == 6 {
        (Action::MoveUp, KeyName::ArrowUp, false, false, true)
    }     else if i == 7 {
        (Action::MoveDown, KeyName::ArrowDown, false, false, true)
    }     else if i == 8 {
        (Action::MoveLeft, KeyName::ArrowLeft, false, false, true)
    }     else if i == 9 {
        (Action::MoveRight, KeyName::ArrowRight, false, false, true)
    }     else if i == 10 {
        (Action::SelectUp, KeyName::ArrowUp, true, false, false)
    }     else if i == 11 {
        (Action::SelectDown, KeyName::ArrowDown, true, false, false)
    }     else if i == 12 {
        (Action::SelectLeft, KeyName::ArrowLeft, true, false, false)
    }     else if i == 13 {
        (Action::SelectRight, KeyName::ArrowRight, true, false, false)
    }     else if i == 14 {
        (Action::Delete, KeyName::Delete, false, false, false)
    }     else if i == 15 {
        (Action::Delete, KeyName::Backspace, false, false, false)
    }     else if i == 16 {
        (Action::NoteOff, KeyName::Tab, false, false, false)
    }     else if i == 17 {
        (Action::OctaveUp, KeyName::Period, false, false, false)
    }     else if i == 18 {
        (Action::OctaveDown, KeyName::Comma, false, false, false)
    }     else if i == 19 {
        (Action::TransposeUp, KeyName::Period, false, true, false)
    }     else if i == 20 {
        (Action::TransposeDown, KeyName::Comma, false, true, false)
    }     else if i == 21 {
        (Action::TransposeOctaveUp, KeyName::Period, true, true, false)
    }     else if i == 22 {
        (Action::TransposeOctaveDown, KeyName::Comma, true, true, false)
    }     else if i == 23 {
        (Action::Escape, KeyName::Escape, false, false, false)
    }     else if i == 24 {
        (Action::SwitchToEdit, KeyName::Num1, false, true, false)
    }     else if i == 25 {
        (Action::SwitchToSynth, KeyName::Num2, false, true, false)
    }     else if i == 26 {
        (Action::SynthUp, KeyName::ArrowUp, false, false, false)
    }     else if i == 27 {
        (Action::SynthDown, KeyName::ArrowDown, false, false, false)
    }     else if i == 28 {
        (Action::SynthIncrease, KeyName::ArrowRight, false, false, false)
    }     else if i == 29 {
        (Action::SynthDecrease, KeyName::ArrowLeft, false, false, false)
    }     else if i == 30 {
        (Action::LoadSample, KeyName::L, false, false, false)
    }     else if i == 31 {
        (Action::FillAscending, KeyName::I, false, true, false)
    } else {
        (Action::FillDescending, KeyName::D, false, true, false)
    }
}

/// Default binding `i`: its title, description and category in the key reference.
pub open spec fn default_text(i: int) -> (Seq<char>, Seq<char>, Seq<char>) {
    if i == 0 {
        ("Play / Stop"@, "Toggle playback from the beginning"@, "Global"@)
    }     else if i == 1 {
        ("Play from cursor"@, "Toggle playback starting at the cursor row"@, "Global"@)
    }     else if i == 2 {
        ("Cursor up"@, "Move cursor one row up"@, "Edit"@)
    }     else if i == 3 {
        ("Cursor down"@, "Move cursor one row down"@, "Edit"@)
    }     else if i == 4 {
        ("Cursor left"@, "Move cursor one channel left"@, "Edit"@)
    }     else if i == 5 {
        ("Cursor right"@, "Move cursor one channel right"@, "Edit"@)
    }     else if i == 6 {
        ("Move up"@, "Move note / selection one row up"@, "Edit"@)
    }     else if i == 7 {
        ("Move down"@, "Move note / selection one row down"@, "Edit"@)
    }     else if i == 8 {
        ("Move left"@, "Move note / selection one channel left"@, "Edit"@)
    }     else if i == 9 {
        ("Move right"@, "Move note / selection one channel right"@, "Edit"@)
    }     else if i == 10 {
        ("Select up"@, "Begin / extend selection upward"@, "Edit"@)
    }     else if i == 11 {
        ("Select down"@, "Begin / extend selection downward"@, "Edit"@)
    }     else if i == 12 {
        ("Select left"@, "Begin / extend selection left"@, "Edit"@)
    }     else if i == 13 {
        ("Select right"@, "Begin / extend selection right"@, "Edit"@)
    }     else if i == 14 {
        ("Delete"@, "Clear note at cursor or selection"@, "Edit"@)
    }     else if i == 15 {
        ("Backspace"@, "Clear note at cursor or selection"@, "Edit"@)
    }     else if i == 16 {
        ("Note off"@, "Insert a note-off marker"@, "Edit"@)
    }     else if i == 17 {
        ("Octave up"@, "Raise the keyboard octave"@, "Edit"@)
    }     else if i == 18 {
        ("Octave down"@, "Lower the keyboard octave"@, "Edit"@)
    }     else if i == 19 {
        ("Transpose +1"@, "Transpose note(s) up by one semitone"@, "Edit"@)
    }     else if i == 20 {
        ("Transpose −1"@, "Transpose note(s) down by one semitone"@, "Edit"@)
    }     else if i == 21 {
        ("Transpose +12"@, "Transpose note(s) up by one octave"@, "Edit"@)
    }     else if i == 22 {
        ("Transpose −12"@, "Transpose note(s) down by one octave"@, "Edit"@)
    }     else if i == 23 {
        ("Escape"@, "Clear selection, stop playback, or quit"@, "Global"@)
    }     else if i == 24 {
        ("Pattern mode"@, "Switch to the pattern editor"@, "Mode"@)
    }     else if i == 25 {
        ("Synth mode"@, "Switch to the synth editor"@, "Mode"@)
    }     else if i == 26 {
        ("Field up"@, "Move to the previous synth field"@, "Synth"@)
    }     else if i == 27 {
        ("Field down"@, "Move to the next synth field"@, "Synth"@)
    }     else if i == 28 {
        ("Increase value"@, "Increase the value of the selected field"@, "Synth"@)
    }     else if i == 29 {
        ("Decrease value"@, "Decrease the value of the selected field"@, "Synth"@)
    }     else if i == 30 {
        ("Load sample"@, "Open file dialog to load a sample"@, "Sampler"@)
    }     else if i == 31 {
        ("Fill ascending"@, "Fill empty rows downward with ascending values"@, "Edit"@)
    } else {
        ("Fill descending"@, "Fill empty rows downward with descending values"@, "Edit"@)
    }
}

/// Binding `b` is default binding `i`.
pub open spec fn is_default_binding(b: Binding, i: int) -> bool {
    let (action, key, shift, ctrl, alt) = default_keys(i);
    let (title, description, category) = default_text(i);
    &&& b.action == action
    &&& b.combo == (KeyCombo { key, shift, ctrl, alt })
    &&& b.title@ == title
    &&& b.description@ == description
    &&& b.category@ == category
}

/// The bindings in effect.
#[derive(Debug, Clone)]
pub struct KeyBindings {
    pub bindings: Vec<Binding>,
}

/// The actions of the bindings whose modifiers are exactly the held ones and whose key
/// was pressed, in binding order.
pub open spec fn matched(bindings: Seq<Binding>, shift: bool, ctrl: bool, alt: bool, pressed: Seq<KeyName>) -> Seq<Action>
    decreases bindings.len(),
{
    if bindings.len() == 0 {
        Seq::empty()
    } else {
        let b = bindings.last();
        matched(bindings.drop_last(), shift, ctrl, alt, pressed) + if b.combo.shift == shift
            && b.combo.ctrl == ctrl && b.combo.alt == alt && pressed.contains(b.combo.key) {
            seq![b.action]
        } else {
            Seq::empty()
        }
    }
}

/// One default binding.
fn binding(
    action: Action,
    combo: KeyCombo,
    title: &'static str,
    description: &'static str,
    category: &'static str,
) -> (r: Binding)
    ensures
        r == (Binding { action, combo, title, description, category }),
{
    Binding { action, combo, title, description, category }
}

/// Whether `key` is among `pressed`.
fn key_pressed(pressed: &Vec<KeyName>, key: KeyName) -> (r: bool)
    ensures
        r == pressed@.contains(key),
{
    let mut k: usize = 0;
    while k < pressed.len()
        invariant
            k <= pressed@.len(),
            forall|j: int| 0 <= j < k ==> pressed@[j] != key,
        decreases pressed@.len() - k,
    {
        if pressed[k] == key {
            return true;
        }
        k = k + 1;
    }
    false
}

impl KeyBindings {
    /// The actions that the pressed keys trigger with exactly these modifiers held (see
    /// `matched`).
    pub fn active_actions(&self, shift: bool, ctrl: bool, alt: bool, pressed: &Vec<KeyName>) -> (r: Vec<Action>)
        ensures
            r@ == matched(self.bindings@, shift, ctrl, alt, pressed@),
    {
        let mut out: Vec<Action> = Vec::new();
        let mut i: usize = 0;
        while i < self.bindings.len()
            invariant
                i <= self.bindings@.len(),
                out@ == matched(self.bindings@.take(i as int), shift, ctrl, alt, pressed@),
            decreases self.bindings@.len() - i,
        {
            let b = self.bindings[i];
            if b.combo.shift == shift && b.combo.ctrl == ctrl && b.combo.alt == alt && key_pressed(pressed, b.combo.key) {
                out.push(b.action);
            }
            assert(self.bindings@.take(i + 1).drop_last() =~= self.bindings@.take(i as int));
            i = i + 1;
            assert(out@ =~= matched(self.bindings@.take(i as int), shift, ctrl, alt, pressed@));
        }
        assert(self.bindings@.take(self.bindings@.len() as int) =~= self.bindings@);
        out
    }

    /// The default bindings (see `default_keys` and `default_text`).
    pub fn defaults() -> (r: KeyBindings)
        ensures
            r.bindings@.len() == DEFAULT_BINDING_COUNT,
            forall|i: int| 0 <= i < DEFAULT_BINDING_COUNT ==> is_default_binding(#[trigger] r.bindings@[i], i),
    {
        let mut v: Vec<Binding> = Vec::new();
        v.push(binding(Action::PlayStop, KeyCombo::new(KeyName::Enter), "Play / Stop", "Toggle playback from the beginning", "Global"));
        v.push(binding(Action::PlayFromCursor, KeyCombo::new(KeyName::Space), "Play from cursor", "Toggle playback starting at the cursor row", "Global"));
        v.push(binding(Action::CursorUp, KeyCombo::new(KeyName::ArrowUp), "Cursor up", "Move cursor one row up", "Edit"));
        v.push(binding(Action::CursorDown, KeyCombo::new(KeyName::ArrowDown), "Cursor down", "Move cursor one row down", "Edit"));
        v.push(binding(Action::CursorLeft, KeyCombo::new(KeyName::ArrowLeft), "Cursor left", "Move cursor one channel left", "Edit"));
        v.push(binding(Action::CursorRight, KeyCombo::new(KeyName::ArrowRight), "Cursor right", "Move cursor one channel right", "Edit"));
        v.push(binding(Action::MoveUp, KeyCombo::new(KeyName::ArrowUp).alt(), "Move up", "Move note / selection one row up", "Edit"));
        v.push(binding(Action::MoveDown, KeyCombo::new(KeyName::ArrowDown).alt(), "Move down", "Move note / selection one row down", "Edit"));
        v.push(binding(Action::MoveLeft, KeyCombo::new(KeyName::ArrowLeft).alt(), "Move left", "Move note / selection one channel left", "Edit"));
        v.push(binding(Action::MoveRight, KeyCombo::new(KeyName::ArrowRight).alt(), "Move right", "Move note / selection one channel right", "Edit"));
        v.push(binding(Action::SelectUp, KeyCombo::new(KeyName::ArrowUp).shift(), "Select up", "Begin / extend selection upward", "Edit"));
        v.push(binding(Action::SelectDown, KeyCombo::new(KeyName::ArrowDown).shift(), "Select down", "Begin / extend selection downward", "Edit"));
        v.push(binding(Action::SelectLeft, KeyCombo::new(KeyName::ArrowLeft).shift(), "Select left", "Begin / extend selection left", "Edit"));
        v.push(binding(Action::SelectRight, KeyCombo::new(KeyName::ArrowRight).shift(), "Select right", "Begin / extend selection right", "Edit"));
        v.push(binding(Action::Delete, KeyCombo::new(KeyName::Delete), "Delete", "Clear note at cursor or selection", "Edit"));
        v.push(binding(Action::Delete, KeyCombo::new(KeyName::Backspace), "Backspace", "Clear note at cursor or selection", "Edit"));
        v.push(binding(Action::NoteOff, KeyCombo::new(KeyName::Tab), "Note off", "Insert a note-off marker", "Edit"));
        v.push(binding(Action::OctaveUp, KeyCombo::new(KeyName::Period), "Octave up", "Raise the keyboard octave", "Edit"));
        v.push(binding(Action::OctaveDown, KeyCombo::new(KeyName::Comma), "Octave down", "Lower the keyboard octave", "Edit"));
        v.push(binding(Action::TransposeUp, KeyCombo::new(KeyName::Period).ctrl(), "Transpose +1", "Transpose note(s) up by one semitone", "Edit"));
        v.push(binding(Action::TransposeDown, KeyCombo::new(KeyName::Comma).ctrl(), "Transpose −1", "Transpose note(s) down by one semitone", "Edit"));
        v.push(binding(Action::TransposeOctaveUp, KeyCombo::new(KeyName::Period).ctrl().shift(), "Transpose +12", "Transpose note(s) up by one octave", "Edit"));
        v.push(binding(Action::TransposeOctaveDown, KeyCombo::new(KeyName::Comma).ctrl().shift(), "Transpose −12", "Transpose note(s) down by one octave", "Edit"));
        v.push(binding(Action::Escape, KeyCombo::new(KeyName::Escape), "Escape", "Clear selection, stop playback, or quit", "Global"));
        v.push(binding(Action::SwitchToEdit, KeyCombo::new(KeyName::Num1).ctrl(), "Pattern mode", "Switch to the pattern editor", "Mode"));
        v.push(binding(Action::SwitchToSynth, KeyCombo::new(KeyName::Num2).ctrl(), "Synth mode", "Switch to the synth editor", "Mode"));
        v.push(binding(Action::SynthUp, KeyCombo::new(KeyName::ArrowUp), "Field up", "Move to the previous synth field", "Synth"));
        v.push(binding(Action::SynthDown, KeyCombo::new(KeyName::ArrowDown), "Field down", "Move to the next synth field", "Synth"));
        v.push(binding(Action::SynthIncrease, KeyCombo::new(KeyName::ArrowRight), "Increase value", "Increase the value of the selected field", "Synth"));
        v.push(binding(Action::SynthDecrease, KeyCombo::new(KeyName::ArrowLeft), "Decrease value", "Decrease the value of the selected field", "Synth"));
        v.push(binding(Action::LoadSample, KeyCombo::new(KeyName::L), "Load sample", "Open file dialog to load a sample", "Sampler"));
        v.push(binding(Action::FillAscending, KeyCombo::new(KeyName::I).ctrl(), "Fill ascending", "Fill empty rows downward with ascending values", "Edit"));
        v.push(binding(Action::FillDescending, KeyCombo::new(KeyName::D).ctrl(), "Fill descending", "Fill empty rows downward with descending values", "Edit"));
        assert forall|i: int| 0 <= i < DEFAULT_BINDING_COUNT implies is_default_binding(#[trigger] v@[i], i) by {
            if i == 0 {}
            else if i == 1 {}
            else if i == 2 {}
            else if i == 3 {}
            else if i == 4 {}
            else if i == 5 {}
            else if i == 6 {}
            else if i == 7 {}
            else if i == 8 {}
            else if i == 9 {}
            else if i == 10 {}
            else if i == 11 {}
            else if i == 12 {}
            else if i == 13 {}
            else if i == 14 {}
            else if i == 15 {}
            else if i == 16 {}
            else if i == 17 {}
            else if i == 18 {}
            else if i == 19 {}
            else if i == 20 {}
            else if i == 21 {}
            else if i == 22 {}
            else if i == 23 {}
            else if i == 24 {}
            else if i == 25 {}
            else if i == 26 {}
            else if i == 27 {}
            else if i == 28 {}
            else if i == 29 {}
            else if i == 30 {}
            else if i == 31 {}
            else if i == 32 {}
        }
        KeyBindings { bindings: v }
    }
}

} // verus!
