//! What a user can ask for, and the chords that ask for it.
use vstd::prelude::*;
use vstd::string::*;

verus! {

/// Everything a key, a menu row or a menu-bar item can ask for.
#[derive(Debug, Clone, Copy, PartialEq, Eq, Hash, Structural)]
pub enum Action {
    NewWindow,
    NewTab,
    SplitVert,
    SplitHoriz,
    SplitAuto,
    Rotate,
    BroadcastOff,
    BroadcastAll,
    BroadcastGroup,
    GroupCycle,
    CloseTerm,
    CloseWindow,
    Copy,
    Paste,
    Search,
    ClipHistory,
    ClearClipHistory,
    ZoomIn,
    ZoomOut,
    ZoomReset,
    Fullscreen,
    ColumnsMore,
    ColumnsFewer,
    ToggleFocusFollowsMouse,
    ToggleZoom,
    NextTab,
    PrevTab,
    MoveTabLeft,
    MoveTabRight,
    DetachPane,
    DetachTab,
    PickUpPane,
    PickUpTab,
    Manual,
    Preferences,
    OpacityUp,
    OpacityDown,
    WireStdout,
    WireStderr,
    Unwire,
    PipeInto,
}

/// The key of a chord.
#[derive(Debug, Clone, Copy, PartialEq, Eq, Hash, Structural)]
pub enum Key {
    Char(char),
    Up,
    Down,
    Left,
    Right,
    PageUp,
    PageDown,
    /// `F1`, `F2`, and so on.
    Function(u8),
    Tab,
    Enter,
}

/// The modifiers held with a key.
#[derive(Debug, Clone, Copy, PartialEq, Eq, Hash, Structural)]
pub struct Mods {
    pub control: bool,
    pub shift: bool,
    pub alt: bool,
    /// The Command key, or the one with a logo.
    pub logo: bool,
}

/// A key pressed with modifiers.
#[derive(Debug, Clone, Copy, PartialEq, Eq, Hash, Structural)]
pub struct Chord {
    pub key: Key,
    pub mods: Mods,
}

/// One chord, what it asks for, and how a menu spells it.
#[derive(Debug, Clone)]
pub struct Binding {
    pub chord: Chord,
    pub action: Action,
    /// The chord in words, as a menu shows it.
    pub accel: String,
}

/// The chords a user can press. Where several bindings speak of one chord, or of one
/// action, the one made last is the one that counts.
#[derive(Debug, Clone)]
pub struct Keymap {
    pub bindings: Vec<Binding>,
}

/// The binding for `action` that counts.
pub open spec fn binding_of(bindings: Seq<Binding>, action: Action) -> Option<Binding>
    decreases bindings.len(),
{
    if bindings.len() == 0 {
        None
    } else if bindings.last().action == action {
        Some(bindings.last())
    } else {
        binding_of(bindings.drop_last(), action)
    }
}

/// What pressing `chord` asks for.
pub open spec fn bound_action(bindings: Seq<Binding>, chord: Chord) -> Option<Action>
    decreases bindings.len(),
{
    if bindings.len() == 0 {
        None
    } else if bindings.last().chord == chord {
        Some(bindings.last().action)
    } else {
        bound_action(bindings.drop_last(), chord)
    }
}

/// The chord that asks for `action`.
pub open spec fn chord_of(keymap: Keymap, action: Action) -> Option<Chord> {
    match binding_of(keymap.bindings@, action) {
        Some(b) => Some(b.chord),
        None => None,
    }
}

/// The chord that asks for `action`, as a menu spells it.
pub open spec fn accel_of(keymap: Keymap, action: Action) -> Option<Seq<char>> {
    match binding_of(keymap.bindings@, action) {
        Some(b) => Some(b.accel@),
        None => None,
    }
}

impl Keymap {
    /// A keymap without bindings.
    pub fn new() -> (r: Keymap)
        ensures
            r.bindings@.len() == 0,
    {
        Keymap { bindings: Vec::new() }
    }

    /// Binds `chord` to `action`, over whatever either was bound to.
    pub fn bind(&mut self, chord: Chord, action: Action, accel: &str)
        ensures
            bound_action(final(self).bindings@, chord) == Some(action),
            chord_of(*final(self), action) == Some(chord),
            accel_of(*final(self), action) == Some(accel@),
            forall|c: Chord| c != chord ==> #[trigger] bound_action(final(self).bindings@, c)
                == bound_action(old(self).bindings@, c),
            forall|a: Action| a != action ==> #[trigger] chord_of(*final(self), a) == chord_of(*old(self), a),
            forall|a: Action| a != action ==> #[trigger] accel_of(*final(self), a) == accel_of(*old(self), a),
    {
        self.bindings.push(Binding { chord, action, accel: accel.to_string() });
        assert(self.bindings@.drop_last() =~= old(self).bindings@);
    }

    fn find(&self, action: Action) -> (r: Option<usize>)
        ensures
            r is Some ==> r->0 < self.bindings@.len() && binding_of(self.bindings@, action) == Some(
                self.bindings@[r->0 as int],
            ),
            r is None ==> binding_of(self.bindings@, action) is None,
    {
        let mut i: usize = self.bindings.len();
        assert(self.bindings@.take(i as int) =~= self.bindings@);
        while i > 0
            invariant
                i <= self.bindings@.len(),
                binding_of(self.bindings@.take(i as int), action) == binding_of(self.bindings@, action),
            decreases i,
        {
            if self.bindings[i - 1].action == action {
                return Some(i - 1);
            }
            assert(self.bindings@.take(i as int).drop_last() =~= self.bindings@.take(i - 1));
            i = i - 1;
        }
        None
    }

    /// The chord that asks for `action`.
    pub fn chord_for(&self, action: Action) -> (r: Option<Chord>)
        ensures
            r == chord_of(*self, action),
    {
        match self.find(action) {
            Some(i) => Some(self.bindings[i].chord),
            None => None,
        }
    }

    /// The chord that asks for `action`, as a menu spells it.
    pub fn shortcut_for(&self, action: Action) -> (r: Option<String>)
        ensures
            crate::text::text_view(r) == accel_of(*self, action),
    {
        match self.find(action) {
            Some(i) => Some(self.bindings[i].accel.clone()),
            None => None,
        }
    }

    /// What pressing `chord` asks for.
    pub fn action_for(&self, chord: Chord) -> (r: Option<Action>)
        ensures
            r == bound_action(self.bindings@, chord),
    {
        let mut i: usize = self.bindings.len();
        assert(self.bindings@.take(i as int) =~= self.bindings@);
        while i > 0
            invariant
                i <= self.bindings@.len(),
                bound_action(self.bindings@.take(i as int), chord) == bound_action(self.bindings@, chord),
            decreases i,
        {
            if self.bindings[i - 1].chord == chord {
                return Some(self.bindings[i - 1].action);
            }
            assert(self.bindings@.take(i as int).drop_last() =~= self.bindings@.take(i - 1));
            i = i - 1;
        }
        None
    }
}

} // verus!
