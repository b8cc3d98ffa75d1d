//! The right-click menu: its rows and what each of them does.
//!
//! Every entry maps to an [`Action`], so a click on a row runs the same code path as
//! the corresponding key. The rows about a link or another window carry what they act
//! on.
use vstd::prelude::*;
use vstd::string::*;
use crate::keymap::{accel_of, Action, Keymap};
use crate::text::text_view;

verus! {

broadcast use vstd::string::group_string_axioms;

/// One entry of the menu's fixed part.
#[derive(Debug, Clone, Copy)]
pub enum Item {
    /// A clickable entry: a label and the action it triggers.
    Action(&'static str, Action),
    /// A thin divider line, not clickable.
    Separator,
}

/// The menu's fixed part, top to bottom: pane actions first, then groups, broadcast
/// and columns, then the settings entries.
pub open spec fn menu_items() -> Seq<Item> {
    seq![
        Item::Action("Split Horizontally", Action::SplitHoriz),
        Item::Action("Split Vertically", Action::SplitVert),
        Item::Action("Split Automatically", Action::SplitAuto),
        Item::Action("Rotate Split", Action::Rotate),
        Item::Action("New Tab", Action::NewTab),
        Item::Action("New Window", Action::NewWindow),
        Item::Action("Maximise / Restore Pane", Action::ToggleZoom),
        Item::Action("Detach Pane to New Window", Action::DetachPane),
        Item::Action("Detach Tab to New Window", Action::DetachTab),
        Item::Action("Pick Up Pane", Action::PickUpPane),
        Item::Action("Pick Up Tab", Action::PickUpTab),
        Item::Action("Search Scrollback…", Action::Search),
        Item::Action("Clear Clipboard History", Action::ClearClipHistory),
        Item::Separator,
        Item::Action("Close Terminal", Action::CloseTerm),
        Item::Separator,
        Item::Action("Group: Cycle This Pane's Colour", Action::GroupCycle),
        Item::Action("Broadcast: Off", Action::BroadcastOff),
        Item::Action("Broadcast: All", Action::BroadcastAll),
        Item::Action("Broadcast: Group (same colour)", Action::BroadcastGroup),
        Item::Separator,
        Item::Action("More Columns", Action::ColumnsMore),
        Item::Action("Fewer Columns", Action::ColumnsFewer),
        Item::Separator,
        Item::Action("Toggle Focus-Follows-Mouse", Action::ToggleFocusFollowsMouse),
        Item::Action("Preferences…", Action::Preferences),
        Item::Action("Manual", Action::Manual),
    ]
}

/// The menu's fixed part.
fn items() -> (r: Vec<Item>)
    ensures
        r@ == menu_items(),
{
    vec![
        Item::Action("Split Horizontally", Action::SplitHoriz),
        Item::Action("Split Vertically", Action::SplitVert),
        Item::Action("Split Automatically", Action::SplitAuto),
        Item::Action("Rotate Split", Action::Rotate),
        Item::Action("New Tab", Action::NewTab),
        Item::Action("New Window", Action::NewWindow),
        Item::Action("Maximise / Restore Pane", Action::ToggleZoom),
        Item::Action("Detach Pane to New Window", Action::DetachPane),
        Item::Action("Detach Tab to New Window", Action::DetachTab),
        Item::Action("Pick Up Pane", Action::PickUpPane),
        Item::Action("Pick Up Tab", Action::PickUpTab),
        Item::Action("Search Scrollback…", Action::Search),
        Item::Action("Clear Clipboard History", Action::ClearClipHistory),
        Item::Separator,
        Item::Action("Close Terminal", Action::CloseTerm),
        Item::Separator,
        Item::Action("Group: Cycle This Pane's Colour", Action::GroupCycle),
        Item::Action("Broadcast: Off", Action::BroadcastOff),
        Item::Action("Broadcast: All", Action::BroadcastAll),
        Item::Action("Broadcast: Group (same colour)", Action::BroadcastGroup),
        Item::Separator,
        Item::Action("More Columns", Action::ColumnsMore),
        Item::Action("Fewer Columns", Action::ColumnsFewer),
        Item::Separator,
        Item::Action("Toggle Focus-Follows-Mouse", Action::ToggleFocusFollowsMouse),
        Item::Action("Preferences…", Action::Preferences),
        Item::Action("Manual", Action::Manual),
    ]
}

/// What the user picked. The link rows carry the address they act on;
/// `MoveToWindow` carries a position among the move targets the menu was built from.
#[derive(Debug, Clone)]
pub enum MenuPick {
    Do(Action),
    OpenUrl(String),
    CopyUrl(String),
    MoveToWindow(usize),
}

/// What a row does.
#[derive(Debug, Clone)]
pub enum RowAction {
    Do(Action),
    OpenUrl(String),
    CopyUrl(String),
    Copy,
    Paste,
    MoveToWindow(usize),
}

/// A row's or a pick's meaning, with the texts as sequences of characters.
pub enum Meaning {
    Do(Action),
    OpenUrl(Seq<char>),
    CopyUrl(Seq<char>),
    MoveToWindow(nat),
}

impl View for MenuPick {
    type V = Meaning;

    open spec fn view(&self) -> Meaning {
        match self {
            MenuPick::Do(a) => Meaning::Do(*a),
            MenuPick::OpenUrl(u) => Meaning::OpenUrl(u@),
            MenuPick::CopyUrl(u) => Meaning::CopyUrl(u@),
            MenuPick::MoveToWindow(i) => Meaning::MoveToWindow(*i as nat),
        }
    }
}

impl View for RowAction {
    type V = Meaning;

    open spec fn view(&self) -> Meaning {
        match self {
            RowAction::Do(a) => Meaning::Do(*a),
            RowAction::Copy => Meaning::Do(Action::Copy),
            RowAction::Paste => Meaning::Do(Action::Paste),
            RowAction::OpenUrl(u) => Meaning::OpenUrl(u@),
            RowAction::CopyUrl(u) => Meaning::CopyUrl(u@),
            RowAction::MoveToWindow(i) => Meaning::MoveToWindow(*i as nat),
        }
    }
}

impl RowAction {
    /// The [`Action`] this row runs, for a renderer that can only express actions.
    /// The rows about a link or another window have none: they depend on where the
    /// pointer was.
    pub fn action(&self) -> (r: Option<Action>)
        ensures
            r == (match self@ {
                Meaning::Do(a) => Some(a),
                _ => None,
            }),
    {
        match self {
            RowAction::Do(a) => Some(*a),
            RowAction::Copy => Some(Action::Copy),
            RowAction::Paste => Some(Action::Paste),
            RowAction::OpenUrl(_) | RowAction::CopyUrl(_) | RowAction::MoveToWindow(_) => None,
        }
    }

    /// Turn a clicked row into the pick the caller applies.
    pub fn into_pick(self) -> (r: MenuPick)
        ensures
            r@ == self@,
    {
        match self {
            RowAction::Do(a) => MenuPick::Do(a),
            RowAction::Copy => MenuPick::Do(Action::Copy),
            RowAction::Paste => MenuPick::Do(Action::Paste),
            RowAction::OpenUrl(u) => MenuPick::OpenUrl(u),
            RowAction::CopyUrl(u) => MenuPick::CopyUrl(u),
            RowAction::MoveToWindow(i) => MenuPick::MoveToWindow(i),
        }
    }
}

/// One built menu row. Without an action it is a separator or a piece of information,
/// and not clickable.
#[derive(Debug, Clone)]
pub struct Row {
    pub label: String,
    pub accel: Option<String>,
    pub action: Option<RowAction>,
    pub enabled: bool,
}

/// What a row says and does.
pub struct RowModel {
    pub label: Seq<char>,
    pub accel: Option<Seq<char>>,
    pub action: Option<Meaning>,
    pub enabled: bool,
}

impl View for Row {
    type V = RowModel;

    open spec fn view(&self) -> RowModel {
        RowModel {
            label: self.label@,
            accel: text_view(self.accel),
            action: match self.action {
                Some(a) => Some(a@),
                None => None,
            },
            enabled: self.enabled,
        }
    }
}

/// The models of `rows`.
pub open spec fn row_models(rows: Seq<Row>) -> Seq<RowModel> {
    Seq::new(rows.len(), |i: int| rows[i]@)
}

/// A divider.
pub open spec fn separator_row() -> RowModel {
    RowModel { label: Seq::empty(), accel: None, action: None, enabled: false }
}

/// A row that runs `action`.
pub open spec fn action_row(keymap: Keymap, label: Seq<char>, action: Action, enabled: bool) -> RowModel {
    RowModel { label, accel: accel_of(keymap, action), action: Some(Meaning::Do(action)), enabled }
}

/// The two rows about the link under the pointer, and their divider.
pub open spec fn link_rows(url: Option<&str>) -> Seq<RowModel> {
    match url {
        None => Seq::empty(),
        Some(u) => seq![
            RowModel {
                label: "Open Link"@,
                accel: None,
                action: Some(Meaning::OpenUrl(u@)),
                enabled: true,
            },
            RowModel {
                label: "Copy Address"@,
                accel: None,
                action: Some(Meaning::CopyUrl(u@)),
                enabled: true,
            },
            separator_row(),
        ],
    }
}

/// One row per window that the pane could move to.
pub open spec fn move_rows(targets: Seq<String>) -> Seq<RowModel> {
    Seq::new(
        targets.len(),
        |i: int| RowModel {
            label: "Move Pane to "@ + targets[i]@,
            accel: None,
            action: Some(Meaning::MoveToWindow(i as nat)),
            enabled: true,
        },
    )
}

/// The rows of one entry of the fixed part. The move targets follow the entry that
/// detaches a tab: both send something somewhere else.
pub open spec fn rows_of_item(keymap: Keymap, targets: Seq<String>, item: Item) -> Seq<RowModel> {
    match item {
        Item::Separator => seq![separator_row()],
        Item::Action(label, action) => seq![action_row(keymap, label@, action, true)]
            + if action == Action::DetachTab {
            move_rows(targets)
        } else {
            Seq::empty()
        },
    }
}

/// The rows of several entries, one after another.
pub open spec fn rows_of_items(keymap: Keymap, targets: Seq<String>, items: Seq<Item>) -> Seq<RowModel>
    decreases items.len(),
{
    if items.len() == 0 {
        Seq::empty()
    } else {
        rows_of_items(keymap, targets, items.drop_last()) + rows_of_item(keymap, targets, items.last())
    }
}

/// The rows about the selection and the clipboard, and their divider.
pub open spec fn clipboard_rows(keymap: Keymap, has_selection: bool) -> Seq<RowModel> {
    seq![
        action_row(keymap, "Copy"@, Action::Copy, has_selection),
        action_row(keymap, "Paste"@, Action::Paste, true),
        separator_row(),
    ]
}

/// A divider, and the build that is running.
pub open spec fn footer_rows(version: Seq<char>) -> Seq<RowModel> {
    seq![
        separator_row(),
        RowModel { label: version, accel: None, action: None, enabled: false },
    ]
}

/// The whole menu.
pub open spec fn menu_rows(
    keymap: Keymap,
    has_selection: bool,
    url: Option<&str>,
    targets: Seq<String>,
    version: Seq<char>,
) -> Seq<RowModel> {
    link_rows(url) + clipboard_rows(keymap, has_selection) + rows_of_items(keymap, targets, menu_items())
        + footer_rows(version)
}

fn separator() -> (r: Row)
    ensures
        r@ == separator_row(),
{
    Row { label: String::new(), accel: None, action: None, enabled: false }
}

fn plain_row(label: &str, action: Option<RowAction>, enabled: bool) -> (r: Row)
    ensures
        r@ == (RowModel {
            label: label@,
            accel: None,
            action: match action {
                Some(a) => Some(a@),
                None => None,
            },
            enabled,
        }),
{
    Row { label: label.to_string(), accel: None, action, enabled }
}

/// The full menu, top to bottom. `has_selection` gates Copy; `url` adds the link rows
/// at the top; `keymap` supplies the accelerators; `move_targets` adds one row per
/// other window; `version` is the dim footer that names the running build.
pub fn rows(
    keymap: &Keymap,
    has_selection: bool,
    url: Option<&str>,
    move_targets: &Vec<String>,
    version: &str,
) -> (r: Vec<Row>)
    ensures
        row_models(r@) == menu_rows(*keymap, has_selection, url, move_targets@, version@),
{
    let mut out: Vec<Row> = Vec::new();
    if let Some(u) = url {
        out.push(plain_row("Open Link", Some(RowAction::OpenUrl(u.to_string())), true));
        out.push(plain_row("Copy Address", Some(RowAction::CopyUrl(u.to_string())), true));
        out.push(separator());
    }
    assert(row_models(out@) =~= link_rows(url));
    out.push(
        Row {
            label: "Copy".to_string(),
            accel: keymap.shortcut_for(Action::Copy),
            action: Some(RowAction::Copy),
            enabled: has_selection,
        },
    );
    out.push(
        Row {
            label: "Paste".to_string(),
            accel: keymap.shortcut_for(Action::Paste),
            action: Some(RowAction::Paste),
            enabled: true,
        },
    );
    out.push(separator());
    let ghost top = link_rows(url) + clipboard_rows(*keymap, has_selection);
    assert(row_models(out@) =~= top);
    let table: Vec<Item> = items();
    let mut k: usize = 0;
    assert(table@.take(0) =~= Seq::<Item>::empty());
    assert(row_models(out@) =~= top + rows_of_items(*keymap, move_targets@, table@.take(0)));
    while k < table.len()
        invariant
            k <= table@.len(),
            row_models(out@) == top + rows_of_items(*keymap, move_targets@, table@.take(k as int)),
        decreases table@.len() - k,
    {
        let ghost before = row_models(out@);
        let ghost item = table@[k as int];
        assert(table@.take(k + 1).drop_last() =~= table@.take(k as int));
        match table[k] {
            Item::Separator => {
                out.push(separator());
                assert(row_models(out@) =~= before + rows_of_item(*keymap, move_targets@, item));
            },
            Item::Action(label, action) => {
                out.push(
                    Row {
                        label: label.to_string(),
                        accel: keymap.shortcut_for(action),
                        action: Some(RowAction::Do(action)),
                        enabled: true,
                    },
                );
                let ghost head = before.push(action_row(*keymap, label@, action, true));
                assert(row_models(out@) =~= head);
                if action == Action::DetachTab {
                    let mut i: usize = 0;
                    while i < move_targets.len()
                        invariant
                            i <= move_targets@.len(),
                            row_models(out@) == head + move_rows(move_targets@).take(i as int),
                        decreases move_targets@.len() - i,
                    {
                        let label: String = "Move Pane to ".to_string().concat(move_targets[i].as_str());
                        let ghost shown = row_models(out@);
                        let ghost all = move_rows(move_targets@);
                        out.push(plain_row(label.as_str(), Some(RowAction::MoveToWindow(i)), true));
                        assert(row_models(out@) =~= shown.push(all[i as int]));
                        assert(all.take(i + 1) =~= all.take(i as int).push(all[i as int]));
                        assert(row_models(out@) =~= head + all.take(i + 1));
                        i = i + 1;
                    }
                    assert(move_rows(move_targets@).take(i as int) =~= move_rows(move_targets@));
                }
                assert(row_models(out@) =~= before + rows_of_item(*keymap, move_targets@, item));
            },
        }
        k = k + 1;
        assert(row_models(out@) =~= top + rows_of_items(*keymap, move_targets@, table@.take(k as int)));
    }
    assert(table@.take(k as int) =~= table@);
    let ghost upper = row_models(out@);
    out.push(separator());
    out.push(plain_row(version, None, false));
    assert(row_models(out@) =~= upper + footer_rows(version@));
    out
}

} // verus!
