//! What the macOS menu bar contains, as plain data.
//!
//! The bar is one more renderer of the right-click menu: the label and the
//! enabled-state of every action that appears there are taken from
//! [`crate::menu::rows`], so the two cannot drift. Beside those rows stand the few
//! standard entries that a right-click menu has no reason to carry; each names an
//! action and a binding that exist anyway.
//!
//! The bar is built once, and afterwards only its enabled flags are read again, by
//! position. That is sound because nothing but the flags depends on the state
//! ([`structure_is_independent_of_state`]).
use vstd::prelude::*;
use vstd::string::*;
use crate::keymap::{chord_of, Action, Chord, Key, Keymap};
use crate::menu::{menu_rows, row_models, rows, Meaning, Row, RowModel};
use crate::text::{ascii_lower, to_lower};

verus! {

broadcast use vstd::string::group_string_axioms;

/// An AppKit key equivalent: the character a menu item matches on, and the modifiers
/// it matches it under. AppKit draws it itself.
#[derive(Debug, Clone, PartialEq, Eq)]
pub struct KeyEquivalent {
    /// A single character (lower case for letters), or one of AppKit's private-use
    /// code points for a function key.
    pub key: String,
    pub command: bool,
    pub shift: bool,
    pub control: bool,
    pub option: bool,
}

/// A key equivalent, its text as a sequence of characters.
pub struct KeyModel {
    pub key: Seq<char>,
    pub command: bool,
    pub shift: bool,
    pub control: bool,
    pub option: bool,
}

impl View for KeyEquivalent {
    type V = KeyModel;

    open spec fn view(&self) -> KeyModel {
        KeyModel {
            key: self.key@,
            command: self.command,
            shift: self.shift,
            control: self.control,
            option: self.option,
        }
    }
}

/// The model of a key equivalent that may be missing.
pub open spec fn key_view(key: Option<KeyEquivalent>) -> Option<KeyModel> {
    match key {
        Some(k) => Some(k@),
        None => None,
    }
}

/// Whether `c` is an ASCII letter or digit.
pub open spec fn ascii_alphanumeric(c: char) -> bool {
    ('0' <= c && c <= '9') || ('A' <= c && c <= 'Z') || ('a' <= c && c <= 'z')
}

/// The character AppKit knows a key by.
pub open spec fn key_character(key: Key) -> Option<char> {
    match key {
        Key::Char(c) => Some(ascii_lower(c)),
        Key::Up => Some('\u{F700}'),
        Key::Down => Some('\u{F701}'),
        Key::Left => Some('\u{F702}'),
        Key::Right => Some('\u{F703}'),
        Key::PageUp => Some('\u{F72C}'),
        Key::PageDown => Some('\u{F72D}'),
        Key::Function(n) => if 1 <= n && n <= 12 {
            Some(function_key(n))
        } else {
            None
        },
        Key::Tab => Some('\t'),
        Key::Enter => Some('\r'),
    }
}

/// AppKit's code point for the function key `F<n>`.
pub open spec fn function_key(n: u8) -> char {
    match n {
        1 => '\u{F704}',
        2 => '\u{F705}',
        3 => '\u{F706}',
        4 => '\u{F707}',
        5 => '\u{F708}',
        6 => '\u{F709}',
        7 => '\u{F70A}',
        8 => '\u{F70B}',
        9 => '\u{F70C}',
        10 => '\u{F70D}',
        11 => '\u{F70E}',
        _ => '\u{F70F}',
    }
}

/// A chord as AppKit spells it. A letter's Shift is a separate press and stays among
/// the modifiers; a symbol that only exists as a shifted press already implies it.
pub open spec fn chord_model(chord: Chord) -> Option<KeyModel> {
    match key_character(chord.key) {
        None => None,
        Some(key) => Some(
            KeyModel {
                key: seq![key],
                command: chord.mods.logo,
                shift: chord.mods.shift && !(chord.key is Char && !ascii_alphanumeric(chord.key->Char_0)),
                control: chord.mods.control,
                option: chord.mods.alt,
            },
        ),
    }
}

/// The key equivalent of `action`: that of the chord the keymap has for it.
pub open spec fn key_model(keymap: Keymap, action: Action) -> Option<KeyModel> {
    match chord_of(keymap, action) {
        Some(chord) => chord_model(chord),
        None => None,
    }
}

fn one_character(c: char) -> (r: String)
    ensures
        r@ == seq![c],
{
    let mut s: String = String::new();
    s.push(c);
    assert(s@ =~= seq![c]);
    s
}

fn is_ascii_alphanumeric(c: char) -> (r: bool)
    ensures
        r == ascii_alphanumeric(c),
{
    ('0' <= c && c <= '9') || ('A' <= c && c <= 'Z') || ('a' <= c && c <= 'z')
}

/// The character AppKit knows a key by.
fn key_char(key: Key) -> (r: Option<char>)
    ensures
        r == key_character(key),
{
    match key {
        Key::Char(c) => Some(to_lower(c)),
        Key::Up => Some('\u{F700}'),
        Key::Down => Some('\u{F701}'),
        Key::Left => Some('\u{F702}'),
        Key::Right => Some('\u{F703}'),
        Key::PageUp => Some('\u{F72C}'),
        Key::PageDown => Some('\u{F72D}'),
        Key::Function(n) => match n {
            1 => Some('\u{F704}'),
            2 => Some('\u{F705}'),
            3 => Some('\u{F706}'),
            4 => Some('\u{F707}'),
            5 => Some('\u{F708}'),
            6 => Some('\u{F709}'),
            7 => Some('\u{F70A}'),
            8 => Some('\u{F70B}'),
            9 => Some('\u{F70C}'),
            10 => Some('\u{F70D}'),
            11 => Some('\u{F70E}'),
            12 => Some('\u{F70F}'),
            _ => None,
        },
        Key::Tab => Some('\t'),
        Key::Enter => Some('\r'),
    }
}

/// A chord as AppKit spells it.
pub fn chord_key_equivalent(chord: &Chord) -> (r: Option<KeyEquivalent>)
    ensures
        key_view(r) == chord_model(*chord),
{
    let key: char = match key_char(chord.key) {
        Some(c) => c,
        None => return None,
    };
    let shifted_symbol: bool = match chord.key {
        Key::Char(c) => !is_ascii_alphanumeric(c),
        _ => false,
    };
    Some(
        KeyEquivalent {
            key: one_character(key),
            command: chord.mods.logo,
            shift: chord.mods.shift && !shifted_symbol,
            control: chord.mods.control,
            option: chord.mods.alt,
        },
    )
}

/// The AppKit key equivalent for `action`, if the keymap has a chord for it.
pub fn key_equivalent(keymap: &Keymap, action: Action) -> (r: Option<KeyEquivalent>)
    ensures
        key_view(r) == key_model(*keymap, action),
{
    match keymap.chord_for(action) {
        Some(chord) => chord_key_equivalent(&chord),
        None => None,
    }
}

/// One row of one menu of the bar. Without an action it is a separator.
#[derive(Debug, Clone, PartialEq, Eq)]
pub struct BarItem {
    pub label: String,
    pub key: Option<KeyEquivalent>,
    pub action: Option<Action>,
    pub enabled: bool,
}

/// What a row of the bar says and does.
pub struct ItemModel {
    pub label: Seq<char>,
    pub key: Option<KeyModel>,
    pub action: Option<Action>,
    pub enabled: bool,
}

impl View for BarItem {
    type V = ItemModel;

    open spec fn view(&self) -> ItemModel {
        ItemModel {
            label: self.label@,
            key: key_view(self.key),
            action: self.action,
            enabled: self.enabled,
        }
    }
}

/// A divider of the bar.
pub open spec fn separator_item() -> ItemModel {
    ItemModel { label: Seq::empty(), key: None, action: None, enabled: false }
}

/// The models of `items`.
pub open spec fn item_models(items: Seq<BarItem>) -> Seq<ItemModel> {
    Seq::new(items.len(), |i: int| items[i]@)
}

impl BarItem {
    /// A separator: no label, no chord, no action, never clickable.
    fn sep() -> (r: Self)
        ensures
            r@ == separator_item(),
    {
        BarItem { label: String::new(), key: None, action: None, enabled: false }
    }

    /// Whether this row is a separator.
    pub fn is_separator(&self) -> (r: bool)
        ensures
            r == (self.action is None),
    {
        self.action.is_none()
    }
}

/// One top-level menu: its title in the bar and the rows behind it.
#[derive(Debug, Clone, PartialEq, Eq)]
pub struct BarMenu {
    pub title: &'static str,
    pub items: Vec<BarItem>,
}

/// One top-level menu, as a model.
pub struct MenuModel {
    pub title: &'static str,
    pub items: Seq<ItemModel>,
}

impl View for BarMenu {
    type V = MenuModel;

    open spec fn view(&self) -> MenuModel {
        MenuModel { title: self.title, items: item_models(self.items@) }
    }
}

/// The whole bar. `app_menu` goes into the application menu that is there already;
/// `menus` are appended after it.
#[derive(Debug, Clone, PartialEq, Eq)]
pub struct BarModel {
    pub app_menu: Vec<BarItem>,
    pub menus: Vec<BarMenu>,
}

/// The models of `menus`.
pub open spec fn menu_models(menus: Seq<BarMenu>) -> Seq<MenuModel> {
    Seq::new(menus.len(), |i: int| menus[i]@)
}

/// The rows of `menus`, one menu after another.
pub open spec fn flattened(menus: Seq<MenuModel>) -> Seq<ItemModel>
    decreases menus.len(),
{
    if menus.len() == 0 {
        Seq::empty()
    } else {
        flattened(menus.drop_last()) + menus.last().items
    }
}

impl BarModel {
    /// Every row of the bar, the application menu's first.
    pub open spec fn all_items(&self) -> Seq<ItemModel> {
        item_models(self.app_menu@) + flattened(menu_models(self.menus@))
    }

    /// Every row of the bar, the application menu's first, in the order in which they
    /// are created: a row's position here is the tag of its menu item.
    pub fn items(&self) -> (r: Vec<&BarItem>)
        ensures
            r@.len() == self.all_items().len(),
            forall|i: int| 0 <= i < r@.len() ==> (#[trigger] r@[i])@ == self.all_items()[i],
    {
        let mut out: Vec<&BarItem> = Vec::new();
        let mut i: usize = 0;
        while i < self.app_menu.len()
            invariant
                i <= self.app_menu@.len(),
                out@.len() == i,
                forall|j: int| 0 <= j < i ==> (#[trigger] out@[j])@ == self.app_menu@[j]@,
            decreases self.app_menu@.len() - i,
        {
            out.push(&self.app_menu[i]);
            i = i + 1;
        }
        let ghost first = item_models(self.app_menu@);
        let ghost all = menu_models(self.menus@);
        let mut m: usize = 0;
        assert(all.take(0) =~= Seq::<MenuModel>::empty());
        while m < self.menus.len()
            invariant
                m <= self.menus@.len(),
                all == menu_models(self.menus@),
                first == item_models(self.app_menu@),
                out@.len() == (first + flattened(all.take(m as int))).len(),
                forall|j: int|
                    0 <= j < out@.len() ==> (#[trigger] out@[j])@ == (first + flattened(all.take(m as int)))[j],
            decreases self.menus@.len() - m,
        {
            let ghost done = first + flattened(all.take(m as int));
            let menu: &Vec<BarItem> = &self.menus[m].items;
            let mut k: usize = 0;
            while k < menu.len()
                invariant
                    k <= menu@.len(),
                    out@.len() == done.len() + k,
                    forall|j: int| 0 <= j < done.len() ==> (#[trigger] out@[j])@ == done[j],
                    forall|j: int| done.len() <= j < out@.len() ==> (#[trigger] out@[j])@ == menu@[j - done.len()]@,
                decreases menu@.len() - k,
            {
                out.push(&menu[k]);
                k = k + 1;
            }
            assert(all.take(m + 1).drop_last() =~= all.take(m as int));
            m = m + 1;
        }
        assert(all.take(m as int) =~= all);
        out
    }
}

/// One entry of the bar's tables.
#[derive(Debug, Clone, Copy)]
pub enum Entry {
    /// A divider.
    Sep,
    /// A row that also exists in the right-click menu: label and enabled-state come
    /// from there.
    Ctx(Action),
    /// A row of the bar only, with its own label. Always enabled.
    Extra(Action, &'static str),
    /// A row of the right-click menu that the bar labels otherwise.
    Relabel(Action, &'static str),
}

/// The application menu's own rows: Settings lives here and nowhere else.
pub open spec fn app_entries() -> Seq<Entry> {
    seq![Entry::Relabel(Action::Preferences, "Settings…")]
}

/// The new, split, broadcast and close family.
pub open spec fn shell_entries() -> Seq<Entry> {
    seq![
        Entry::Ctx(Action::NewWindow),
        Entry::Ctx(Action::NewTab),
        Entry::Sep,
        Entry::Ctx(Action::SplitVert),
        Entry::Ctx(Action::SplitHoriz),
        Entry::Ctx(Action::SplitAuto),
        Entry::Ctx(Action::Rotate),
        Entry::Sep,
        Entry::Ctx(Action::BroadcastOff),
        Entry::Ctx(Action::BroadcastAll),
        Entry::Ctx(Action::BroadcastGroup),
        Entry::Ctx(Action::GroupCycle),
        Entry::Sep,
        Entry::Ctx(Action::CloseTerm),
        Entry::Extra(Action::CloseWindow, "Close Window"),
    ]
}

/// The clipboard and the search.
pub open spec fn edit_entries() -> Seq<Entry> {
    seq![
        Entry::Ctx(Action::Copy),
        Entry::Ctx(Action::Paste),
        Entry::Sep,
        Entry::Ctx(Action::Search),
        Entry::Sep,
        Entry::Extra(Action::ClipHistory, "Clipboard History…"),
        Entry::Ctx(Action::ClearClipHistory),
    ]
}

/// Zoom, full screen, columns.
pub open spec fn view_entries() -> Seq<Entry> {
    seq![
        Entry::Extra(Action::ZoomIn, "Zoom In"),
        Entry::Extra(Action::ZoomOut, "Zoom Out"),
        Entry::Extra(Action::ZoomReset, "Actual Size"),
        Entry::Sep,
        Entry::Extra(Action::Fullscreen, "Enter Full Screen"),
        Entry::Sep,
        Entry::Ctx(Action::ColumnsMore),
        Entry::Ctx(Action::ColumnsFewer),
        Entry::Sep,
        Entry::Ctx(Action::ToggleFocusFollowsMouse),
    ]
}

/// Panes, tabs, and sending either somewhere else.
pub open spec fn window_entries() -> Seq<Entry> {
    seq![
        Entry::Ctx(Action::ToggleZoom),
        Entry::Sep,
        Entry::Extra(Action::NextTab, "Next Tab"),
        Entry::Extra(Action::PrevTab, "Previous Tab"),
        Entry::Extra(Action::MoveTabLeft, "Move Tab Left"),
        Entry::Extra(Action::MoveTabRight, "Move Tab Right"),
        Entry::Sep,
        Entry::Ctx(Action::DetachPane),
        Entry::Ctx(Action::DetachTab),
        Entry::Ctx(Action::PickUpPane),
        Entry::Ctx(Action::PickUpTab),
    ]
}

/// The manual.
pub open spec fn help_entries() -> Seq<Entry> {
    seq![Entry::Ctx(Action::Manual)]
}

/// The menus of the bar, left to right, as they are titled in a terminal on a Mac.
pub open spec fn category_table() -> Seq<(&'static str, Seq<Entry>)> {
    seq![
        ("Shell", shell_entries()),
        ("Edit", edit_entries()),
        ("View", view_entries()),
        ("Window", window_entries()),
        ("Help", help_entries()),
    ]
}

/// The application menu's own rows.
pub fn app_menu_table() -> (r: Vec<Entry>)
    ensures
        r@ == app_entries(),
{
    vec![Entry::Relabel(Action::Preferences, "Settings…")]
}

/// The contents of a table of categories.
pub open spec fn category_views(table: Seq<(&'static str, Vec<Entry>)>) -> Seq<(&'static str, Seq<Entry>)> {
    Seq::new(table.len(), |i: int| (table[i].0, table[i].1@))
}

/// The menus of the bar, left to right: new, split and close under Shell, Find under
/// Edit, and so on, as a user of a Mac terminal expects.
pub fn categories() -> (r: Vec<(&'static str, Vec<Entry>)>)
    ensures
        category_views(r@) == category_table(),
{
    let shell: Vec<Entry> = vec![
        Entry::Ctx(Action::NewWindow),
        Entry::Ctx(Action::NewTab),
        Entry::Sep,
        Entry::Ctx(Action::SplitVert),
        Entry::Ctx(Action::SplitHoriz),
        Entry::Ctx(Action::SplitAuto),
        Entry::Ctx(Action::Rotate),
        Entry::Sep,
        Entry::Ctx(Action::BroadcastOff),
        Entry::Ctx(Action::BroadcastAll),
        Entry::Ctx(Action::BroadcastGroup),
        Entry::Ctx(Action::GroupCycle),
        Entry::Sep,
        Entry::Ctx(Action::CloseTerm),
        Entry::Extra(Action::CloseWindow, "Close Window"),
    ];
    let edit: Vec<Entry> = vec![
        Entry::Ctx(Action::Copy),
        Entry::Ctx(Action::Paste),
        Entry::Sep,
        Entry::Ctx(Action::Search),
        Entry::Sep,
        Entry::Extra(Action::ClipHistory, "Clipboard History…"),
        Entry::Ctx(Action::ClearClipHistory),
    ];
    let view: Vec<Entry> = vec![
        Entry::Extra(Action::ZoomIn, "Zoom In"),
        Entry::Extra(Action::ZoomOut, "Zoom Out"),
        Entry::Extra(Action::ZoomReset, "Actual Size"),
        Entry::Sep,
        Entry::Extra(Action::Fullscreen, "Enter Full Screen"),
        Entry::Sep,
        Entry::Ctx(Action::ColumnsMore),
        Entry::Ctx(Action::ColumnsFewer),
        Entry::Sep,
        Entry::Ctx(Action::ToggleFocusFollowsMouse),
    ];
    let window: Vec<Entry> = vec![
        Entry::Ctx(Action::ToggleZoom),
        Entry::Sep,
        Entry::Extra(Action::NextTab, "Next Tab"),
        Entry::Extra(Action::PrevTab, "Previous Tab"),
        Entry::Extra(Action::MoveTabLeft, "Move Tab Left"),
        Entry::Extra(Action::MoveTabRight, "Move Tab Right"),
        Entry::Sep,
        Entry::Ctx(Action::DetachPane),
        Entry::Ctx(Action::DetachTab),
        Entry::Ctx(Action::PickUpPane),
        Entry::Ctx(Action::PickUpTab),
    ];
    let help: Vec<Entry> = vec![Entry::Ctx(Action::Manual)];
    assert(shell@ =~= shell_entries());
    assert(edit@ =~= edit_entries());
    assert(view@ =~= view_entries());
    assert(window@ =~= window_entries());
    assert(help@ =~= help_entries());
    let table: Vec<(&'static str, Vec<Entry>)> = vec![
        ("Shell", shell),
        ("Edit", edit),
        ("View", view),
        ("Window", window),
        ("Help", help),
    ];
    assert(category_views(table@) =~= category_table());
    table
}

/// An actionable row of the right-click menu.
pub struct ContextModel {
    pub action: Action,
    pub label: Seq<char>,
    pub enabled: bool,
}

/// The rows among `rows` that run an action, in order.
pub open spec fn actionable(rows: Seq<RowModel>) -> Seq<ContextModel>
    decreases rows.len(),
{
    if rows.len() == 0 {
        Seq::empty()
    } else {
        let before = actionable(rows.drop_last());
        match rows.last().action {
            Some(Meaning::Do(action)) => before.push(
                ContextModel { action, label: rows.last().label, enabled: rows.last().enabled },
            ),
            _ => before,
        }
    }
}

/// The right-click menu as the bar sees it: without a link, without other windows.
pub open spec fn context_models(keymap: Keymap, has_selection: bool) -> Seq<ContextModel> {
    actionable(menu_rows(keymap, has_selection, None, Seq::empty(), Seq::empty()))
}

/// The contents of a list of actionable rows.
pub open spec fn context_views(rows: Seq<(Action, String, bool)>) -> Seq<ContextModel> {
    Seq::new(
        rows.len(),
        |i: int| ContextModel { action: rows[i].0, label: rows[i].1@, enabled: rows[i].2 },
    )
}

/// Every actionable row of the right-click menu, as action, label and enabled-state.
pub fn context_rows(keymap: &Keymap, has_selection: bool) -> (r: Vec<(Action, String, bool)>)
    ensures
        context_views(r@) == context_models(*keymap, has_selection),
{
    let none: Vec<String> = Vec::new();
    let version: String = String::new();
    let all: Vec<Row> = rows(keymap, has_selection, None, &none, version.as_str());
    assert(none@ =~= Seq::<String>::empty());
    let ghost models = row_models(all@);
    let mut out: Vec<(Action, String, bool)> = Vec::new();
    let mut i: usize = 0;
    assert(models.take(0) =~= Seq::<RowModel>::empty());
    assert(context_views(out@) =~= actionable(models.take(0)));
    while i < all.len()
        invariant
            i <= all@.len(),
            models == row_models(all@),
            context_views(out@) == actionable(models.take(i as int)),
        decreases all@.len() - i,
    {
        let ghost before = context_views(out@);
        assert(models.take(i + 1).drop_last() =~= models.take(i as int));
        let row: &Row = &all[i];
        match &row.action {
            Some(a) => match a.action() {
                Some(action) => {
                    out.push((action, row.label.clone(), row.enabled));
                    assert(context_views(out@) =~= before.push(
                        ContextModel { action, label: row.label@, enabled: row.enabled },
                    ));
                },
                None => {},
            },
            None => {},
        }
        i = i + 1;
    }
    assert(models.take(i as int) =~= models);
    out
}

/// The first row for `action` among `ctx`.
pub open spec fn context_row(ctx: Seq<ContextModel>, action: Action) -> Option<ContextModel>
    decreases ctx.len(),
{
    if ctx.len() == 0 {
        None
    } else if ctx[0].action == action {
        Some(ctx[0])
    } else {
        context_row(ctx.skip(1), action)
    }
}

/// The row that an entry other than a divider makes: none, where the right-click menu
/// has no row for its action.
pub open spec fn entry_item(
    keymap: Keymap,
    ctx: Seq<ContextModel>,
    suspended: bool,
    entry: Entry,
) -> Option<ItemModel> {
    match entry {
        Entry::Sep => None,
        Entry::Ctx(action) => match context_row(ctx, action) {
            Some(row) => Some(
                ItemModel {
                    label: row.label,
                    key: key_model(keymap, action),
                    action: Some(action),
                    enabled: row.enabled && !suspended,
                },
            ),
            None => None,
        },
        Entry::Relabel(action, label) => match context_row(ctx, action) {
            Some(row) => Some(
                ItemModel {
                    label: label@,
                    key: key_model(keymap, action),
                    action: Some(action),
                    enabled: row.enabled && !suspended,
                },
            ),
            None => None,
        },
        Entry::Extra(action, label) => Some(
            ItemModel {
                label: label@,
                key: key_model(keymap, action),
                action: Some(action),
                enabled: !suspended,
            },
        ),
    }
}

/// Whether `items` end in a row that is no divider.
pub open spec fn ends_in_row(items: Seq<ItemModel>) -> bool {
    items.len() > 0 && items.last().action is Some
}

/// The rows of `entries`, with a divider only behind a row.
pub open spec fn built(keymap: Keymap, ctx: Seq<ContextModel>, suspended: bool, entries: Seq<Entry>) -> Seq<
    ItemModel,
>
    decreases entries.len(),
{
    if entries.len() == 0 {
        Seq::empty()
    } else {
        let out = built(keymap, ctx, suspended, entries.drop_last());
        match entries.last() {
            Entry::Sep => if ends_in_row(out) {
                out.push(separator_item())
            } else {
                out
            },
            entry => match entry_item(keymap, ctx, suspended, entry) {
                Some(item) => out.push(item),
                None => out,
            },
        }
    }
}

/// `items` without a divider at their end: it would separate a row from nothing.
pub open spec fn without_last_divider(items: Seq<ItemModel>) -> Seq<ItemModel> {
    if items.len() > 0 && items.last().action is None {
        items.drop_last()
    } else {
        items
    }
}

/// The rows of one menu of the bar.
pub open spec fn menu_of(keymap: Keymap, has_selection: bool, suspended: bool, entries: Seq<Entry>) -> Seq<
    ItemModel,
> {
    without_last_divider(built(keymap, context_models(keymap, has_selection), suspended, entries))
}

/// The menus of `table`, left to right. A menu without rows is left out.
pub open spec fn menus_of(
    keymap: Keymap,
    has_selection: bool,
    suspended: bool,
    table: Seq<(&'static str, Seq<Entry>)>,
) -> Seq<MenuModel>
    decreases table.len(),
{
    if table.len() == 0 {
        Seq::empty()
    } else {
        let before = menus_of(keymap, has_selection, suspended, table.drop_last());
        let items = menu_of(keymap, has_selection, suspended, table.last().1);
        if items.len() == 0 {
            before
        } else {
            before.push(MenuModel { title: table.last().0, items })
        }
    }
}

fn find_row(ctx: &Vec<(Action, String, bool)>, action: Action) -> (r: Option<usize>)
    ensures
        r is Some ==> r->0 < ctx@.len() && context_row(context_views(ctx@), action) == Some(
            context_views(ctx@)[r->0 as int],
        ),
        r is None ==> context_row(context_views(ctx@), action) is None,
{
    let ghost all = context_views(ctx@);
    let mut i: usize = 0;
    assert(all.skip(0) =~= all);
    while i < ctx.len()
        invariant
            i <= ctx@.len(),
            all == context_views(ctx@),
            context_row(all.skip(i as int), action) == context_row(all, action),
        decreases ctx@.len() - i,
    {
        if ctx[i].0 == action {
            return Some(i);
        }
        assert(all.skip(i as int).skip(1) =~= all.skip(i + 1));
        i = i + 1;
    }
    None
}

fn build_menu(
    keymap: &Keymap,
    ctx: &Vec<(Action, String, bool)>,
    suspended: bool,
    entries: &Vec<Entry>,
) -> (r: Vec<BarItem>)
    ensures
        item_models(r@) == without_last_divider(
            built(*keymap, context_views(ctx@), suspended, entries@),
        ),
{
    let ghost rows = context_views(ctx@);
    let mut out: Vec<BarItem> = Vec::new();
    let mut i: usize = 0;
    assert(item_models(out@) =~= built(*keymap, rows, suspended, entries@.take(0)));
    while i < entries.len()
        invariant
            i <= entries@.len(),
            rows == context_views(ctx@),
            item_models(out@) == built(*keymap, rows, suspended, entries@.take(i as int)),
        decreases entries@.len() - i,
    {
        let ghost before = item_models(out@);
        assert(entries@.take(i + 1).drop_last() =~= entries@.take(i as int));
        match entries[i] {
            Entry::Sep => {
                let n: usize = out.len();
                if n > 0 && !out[n - 1].is_separator() {
                    assert(ends_in_row(before));
                    out.push(BarItem::sep());
                    assert(item_models(out@) =~= before.push(separator_item()));
                }
            },
            Entry::Ctx(action) => {
                if let Some(at) = find_row(ctx, action) {
                    out.push(
                        BarItem {
                            label: ctx[at].1.clone(),
                            key: key_equivalent(keymap, action),
                            action: Some(action),
                            enabled: ctx[at].2 && !suspended,
                        },
                    );
                    assert(item_models(out@) =~= before.push(
                        entry_item(*keymap, rows, suspended, entries@[i as int])->0,
                    ));
                }
            },
            Entry::Relabel(action, label) => {
                if let Some(at) = find_row(ctx, action) {
                    out.push(
                        BarItem {
                            label: label.to_string(),
                            key: key_equivalent(keymap, action),
                            action: Some(action),
                            enabled: ctx[at].2 && !suspended,
                        },
                    );
                    assert(item_models(out@) =~= before.push(
                        entry_item(*keymap, rows, suspended, entries@[i as int])->0,
                    ));
                }
            },
            Entry::Extra(action, label) => {
                out.push(
                    BarItem {
                        label: label.to_string(),
                        key: key_equivalent(keymap, action),
                        action: Some(action),
                        enabled: !suspended,
                    },
                );
                assert(item_models(out@) =~= before.push(
                    entry_item(*keymap, rows, suspended, entries@[i as int])->0,
                ));
            },
        }
        i = i + 1;
    }
    assert(entries@.take(i as int) =~= entries@);
    let ghost whole = item_models(out@);
    let n: usize = out.len();
    if n > 0 && out[n - 1].is_separator() {
        out.pop();
        assert(item_models(out@) =~= whole.drop_last());
    }
    out
}

/// Build the whole menu bar.
///
/// `keymap` supplies every key equivalent; an action without a chord shows none.
/// `has_selection` gates Copy, exactly as in the right-click menu. `suspended` greys
/// every row: another window or an overlay has the keyboard, and a key equivalent is
/// dead while its item is disabled.
pub fn model(keymap: &Keymap, has_selection: bool, suspended: bool) -> (r: BarModel)
    ensures
        item_models(r.app_menu@) == menu_of(*keymap, has_selection, suspended, app_entries()),
        menu_models(r.menus@) == menus_of(*keymap, has_selection, suspended, category_table()),
{
    let ctx: Vec<(Action, String, bool)> = context_rows(keymap, has_selection);
    let app_menu: Vec<BarItem> = build_menu(keymap, &ctx, suspended, &app_menu_table());
    let table: Vec<(&'static str, Vec<Entry>)> = categories();
    let ghost all = category_views(table@);
    let mut menus: Vec<BarMenu> = Vec::new();
    let mut i: usize = 0;
    assert(menu_models(menus@) =~= menus_of(*keymap, has_selection, suspended, all.take(0)));
    while i < table.len()
        invariant
            i <= table@.len(),
            all == category_views(table@),
            context_views(ctx@) == context_models(*keymap, has_selection),
            menu_models(menus@) == menus_of(*keymap, has_selection, suspended, all.take(i as int)),
        decreases table@.len() - i,
    {
        let ghost before = menu_models(menus@);
        assert(all.take(i + 1).drop_last() =~= all.take(i as int));
        let items: Vec<BarItem> = build_menu(keymap, &ctx, suspended, &table[i].1);
        assert(all.take(i + 1).last() == all[i as int]);
        if items.len() > 0 {
            menus.push(BarMenu { title: table[i].0, items });
            assert(menu_models(menus@) =~= before.push(
                MenuModel {
                    title: all[i as int].0,
                    items: menu_of(*keymap, has_selection, suspended, all[i as int].1),
                },
            ));
        }
        i = i + 1;
    }
    assert(all.take(i as int) =~= all);
    BarModel { app_menu, menus }
}

} // verus!
