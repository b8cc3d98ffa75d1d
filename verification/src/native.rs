//! What the native windows and menus of a Mac decide: what a click on a menu item means,
//! which keys a panel takes, and what is dragged over a window.
use vstd::prelude::*;
use vstd::string::*;
use crate::geometry::Point;
use crate::keymap::Action;
use crate::menubar_model::{BarItem, BarModel, ItemModel};
use crate::text::same_text;

verus! {

broadcast use vstd::string::group_string_axioms;

/// The menu bar once it is built: what each item does, by its tag, whether it is live,
/// and what was clicked and not yet collected.
#[derive(Debug)]
pub struct Bridge {
    pub actions: Vec<Option<Action>>,
    pub enabled: Vec<bool>,
    pub pending: Vec<Action>,
}

/// What the item with a tag does.
pub open spec fn action_at(actions: Seq<Option<Action>>, tag: int) -> Option<Action> {
    if 0 <= tag < actions.len() {
        actions[tag]
    } else {
        None
    }
}

/// What the rows of a bar do.
pub open spec fn actions_of(items: Seq<ItemModel>) -> Seq<Option<Action>> {
    Seq::new(items.len(), |i: int| items[i].action)
}

/// Which rows of a bar are live.
pub open spec fn flags_of(items: Seq<ItemModel>) -> Seq<bool> {
    Seq::new(items.len(), |i: int| items[i].enabled)
}

/// Which rows of a bar are live, by their tags.
pub fn enabled_flags(model: &BarModel) -> (r: Vec<bool>)
    ensures
        r@ == flags_of(model.all_items()),
{
    let items: Vec<&BarItem> = model.items();
    let mut out: Vec<bool> = Vec::new();
    let mut i: usize = 0;
    while i < items.len()
        invariant
            i <= items@.len(),
            items@.len() == model.all_items().len(),
            forall|j: int| 0 <= j < items@.len() ==> (#[trigger] items@[j])@ == model.all_items()[j],
            out@.len() == i,
            forall|j: int| 0 <= j < i ==> out@[j] == (#[trigger] model.all_items()[j]).enabled,
        decreases items@.len() - i,
    {
        assert(items@[i as int]@ == model.all_items()[i as int]);
        out.push(items[i].enabled);
        i = i + 1;
    }
    assert(out@ =~= flags_of(model.all_items()));
    out
}

impl Bridge {
    /// The bridge to a bar: an item's tag is its position among all of them.
    pub fn new(model: &BarModel) -> (r: Bridge)
        ensures
            r.actions@ == actions_of(model.all_items()),
            r.enabled@ == flags_of(model.all_items()),
            r.pending@.len() == 0,
    {
        let items: Vec<&BarItem> = model.items();
        let mut actions: Vec<Option<Action>> = Vec::new();
        let mut i: usize = 0;
        while i < items.len()
            invariant
                i <= items@.len(),
                items@.len() == model.all_items().len(),
                forall|j: int| 0 <= j < items@.len() ==> (#[trigger] items@[j])@ == model.all_items()[j],
                actions@.len() == i,
                forall|j: int| 0 <= j < i ==> actions@[j] == (#[trigger] model.all_items()[j]).action,
            decreases items@.len() - i,
        {
            assert(items@[i as int]@ == model.all_items()[i as int]);
            actions.push(items[i].action);
            i = i + 1;
        }
        assert(actions@ =~= actions_of(model.all_items()));
        Bridge { actions, enabled: enabled_flags(model), pending: Vec::new() }
    }

    /// An item was clicked: what it does is to be collected. An item without an action,
    /// or unknown, does nothing.
    pub fn clicked(&mut self, tag: i64) -> (r: bool)
        ensures
            r == (action_at(old(self).actions@, tag as int) is Some),
            final(self).pending@ == (match action_at(old(self).actions@, tag as int) {
                Some(a) => old(self).pending@.push(a),
                None => old(self).pending@,
            }),
            final(self).actions == old(self).actions,
            final(self).enabled == old(self).enabled,
    {
        if tag < 0 || tag as u64 >= self.actions.len() as u64 {
            return false;
        }
        match self.actions[tag as usize] {
            Some(a) => {
                self.pending.push(a);
                true
            },
            None => false,
        }
    }

    /// Whether an item is live. One that is unknown is not: it must neither be clicked
    /// nor take a key.
    pub fn is_enabled(&self, tag: i64) -> (r: bool)
        ensures
            r == (0 <= tag < self.enabled@.len() && self.enabled@[tag as int]),
    {
        tag >= 0 && (tag as u64) < self.enabled.len() as u64 && self.enabled[tag as usize]
    }

    /// Take over which items are live.
    pub fn refresh(&mut self, flags: Vec<bool>)
        ensures
            final(self).enabled == flags,
            final(self).actions == old(self).actions,
            final(self).pending == old(self).pending,
    {
        self.enabled = flags;
    }

    /// What was clicked since the last time, the oldest first.
    pub fn take_pending(&mut self) -> (r: Vec<Action>)
        ensures
            r@ == old(self).pending@,
            final(self).pending@.len() == 0,
            final(self).actions == old(self).actions,
            final(self).enabled == old(self).enabled,
    {
        let mut out: Vec<Action> = Vec::new();
        let mut i: usize = 0;
        while i < self.pending.len()
            invariant
                i <= self.pending@.len(),
                self.pending == old(self).pending,
                self.actions == old(self).actions,
                self.enabled == old(self).enabled,
                out@ == self.pending@.take(i as int),
            decreases self.pending@.len() - i,
        {
            out.push(self.pending[i]);
            assert(self.pending@.take(i + 1) =~= self.pending@.take(i as int).push(self.pending@[i as int]));
            i = i + 1;
        }
        assert(self.pending@.take(i as int) =~= self.pending@);
        self.pending = Vec::new();
        out
    }
}

/// The modifiers of a key that a native window is asked about.
#[derive(Debug, Clone, Copy, PartialEq, Eq, Structural)]
pub struct NativeMods {
    pub command: bool,
    pub option: bool,
    pub control: bool,
    pub shift: bool,
}

/// Whether a key closes a native panel: Command and `w`, and nothing else held.
pub fn closes_panel(mods: NativeMods, key: Option<&str>) -> (r: bool)
    ensures
        r == (mods.command && !mods.option && !mods.control && !mods.shift && key is Some && key->0@
            == "w"@),
{
    mods.command && !mods.option && !mods.control && !mods.shift && match key {
        Some(k) => same_text(k, "w"),
        None => false,
    }
}

/// Whether a key opens the manual's find bar: Command and `f`, Shift or not.
pub fn finds_in_manual(mods: NativeMods, key: Option<&str>) -> (r: bool)
    ensures
        r == (mods.command && !mods.option && !mods.control && key is Some && key->0@ == "f"@),
{
    mods.command && !mods.option && !mods.control && match key {
        Some(k) => same_text(k, "f"),
        None => false,
    }
}

/// Text dragged over a window, as the window system tells of it between two turns of the
/// event loop.
#[derive(Debug)]
pub struct DropInbox {
    /// Where it hovers, if it does.
    pub hover: Option<Point>,
    /// What is shown of it: found once, when it enters, since it can be long.
    pub label: String,
    /// Whether it was taken on when it entered.
    pub accepted: bool,
    /// Where it was dropped, and what it is.
    pub dropped: Option<(Point, String)>,
    /// Whether any of this has changed since it was last looked at.
    pub changed: bool,
}

/// What has changed: where the drag hovers and what is shown of it, and what was dropped.
#[derive(Debug)]
pub struct DropNews {
    pub hover: Option<(Point, String)>,
    pub dropped: Option<(Point, String)>,
}

/// A place and a text that may be missing.
pub open spec fn placed_view(p: Option<(Point, String)>) -> Option<(Point, Seq<char>)> {
    match p {
        Some((at, text)) => Some((at, text@)),
        None => None,
    }
}

impl DropInbox {
    /// An inbox in which nothing has happened.
    pub fn new() -> (r: DropInbox)
        ensures
            r.hover is None,
            r.label@.len() == 0,
            !r.accepted,
            r.dropped is None,
            !r.changed,
    {
        DropInbox {
            hover: None,
            label: String::new(),
            accepted: false,
            dropped: None,
            changed: false,
        }
    }

    /// Text enters the window, to be shown as `label`; `at` is where, if that is known.
    /// Says whether it can be dropped here.
    pub fn entered(&mut self, label: String, at: Option<Point>) -> (r: bool)
        ensures
            r == (at is Some),
            final(self).label@ == label@,
            final(self).accepted,
            final(self).dropped == old(self).dropped,
            final(self).hover == (if at is Some {
                at
            } else {
                old(self).hover
            }),
            final(self).changed == (old(self).changed || at is Some),
    {
        self.label = label;
        self.accepted = true;
        self.moved(at)
    }

    /// What is dragged moves over the window. What was not taken on when it entered is
    /// none of ours.
    pub fn moved(&mut self, at: Option<Point>) -> (r: bool)
        ensures
            r == (old(self).accepted && at is Some),
            *final(self) == (if old(self).accepted && at is Some {
                DropInbox { hover: at, changed: true, ..*old(self) }
            } else {
                *old(self)
            }),
    {
        if at.is_none() || !self.accepted {
            return false;
        }
        self.hover = at;
        self.changed = true;
        true
    }

    /// What was dragged leaves the window.
    pub fn exited(&mut self)
        ensures
            final(self).hover is None,
            final(self).label@.len() == 0,
            !final(self).accepted,
            final(self).changed,
            final(self).dropped == old(self).dropped,
    {
        self.hover = None;
        self.label = String::new();
        self.accepted = false;
        self.changed = true;
    }

    /// What was dragged is dropped, if it is text and it is known where. Says whether it
    /// was taken.
    pub fn performed(&mut self, text: Option<String>, at: Option<Point>) -> (r: bool)
        ensures
            r == (text is Some && at is Some),
            if text is Some && at is Some {
                &&& final(self).hover is None
                &&& final(self).label@.len() == 0
                &&& !final(self).accepted
                &&& placed_view(final(self).dropped) == Some((at->0, text->0@))
                &&& final(self).changed
            } else {
                *final(self) == *old(self)
            },
    {
        match (text, at) {
            (Some(text), Some(at)) => {
                self.hover = None;
                self.label = String::new();
                self.accepted = false;
                self.dropped = Some((at, text));
                self.changed = true;
                true
            },
            _ => false,
        }
    }

    /// What has changed since it was last looked at: nothing, on nearly every turn of the
    /// loop. A drop is handed over once.
    pub fn take_change(&mut self) -> (r: Option<DropNews>)
        ensures
            r is Some <==> old(self).changed,
            r is Some ==> {
                &&& placed_view(r->0.hover) == (match old(self).hover {
                    Some(at) => Some((at, old(self).label@)),
                    None => None,
                })
                &&& placed_view(r->0.dropped) == placed_view(old(self).dropped)
                &&& final(self).dropped is None
            },
            r is None ==> *final(self) == *old(self),
            !final(self).changed,
            final(self).hover == old(self).hover,
            final(self).label == old(self).label,
            final(self).accepted == old(self).accepted,
    {
        if !self.changed {
            return None;
        }
        self.changed = false;
        let hover: Option<(Point, String)> = match self.hover {
            Some(at) => Some((at, self.label.clone())),
            None => None,
        };
        let mut dropped: Option<(Point, String)> = None;
        if let Some((at, text)) = &self.dropped {
            dropped = Some((*at, text.clone()));
        }
        self.dropped = None;
        Some(DropNews { hover, dropped })
    }
}

} // verus!
