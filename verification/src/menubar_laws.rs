//! What holds of the menu bar whatever the keymap and the state.
use vstd::prelude::*;
use crate::keymap::{Action, Keymap};
use crate::menu::{
    action_row, clipboard_rows, footer_rows, menu_items, menu_rows, rows_of_item,
    rows_of_items, separator_row, Item, Meaning, RowModel,
};
use crate::menubar_model::{
    actionable, app_entries, built, category_table, context_models, context_row, edit_entries,
    ends_in_row, help_entries, key_model, menu_of, menus_of, separator_item,
    shell_entries, view_entries, window_entries, ContextModel, Entry,
    ItemModel, MenuModel,
};

verus! {

/// Rows in which dividers only divide: none stands first or last, no two stand
/// together, and a divider carries no label, no chord and cannot be clicked.
pub open spec fn well_divided(items: Seq<ItemModel>) -> bool {
    &&& items.len() > 0 ==> items.first().action is Some && items.last().action is Some
    &&& forall|i: int|
        #![trigger items[i]]
        0 <= i < items.len() && items[i].action is None ==> items[i] == separator_item()
    &&& forall|i: int|
        #![trigger items[i]]
        0 <= i < items.len() - 1 && items[i].action is None ==> items[i + 1].action is Some
}

proof fn lemma_built_divided(keymap: Keymap, ctx: Seq<ContextModel>, suspended: bool, entries: Seq<Entry>)
    ensures
        ({
            let items = built(keymap, ctx, suspended, entries);
            &&& items.len() > 0 ==> items.first().action is Some
            &&& forall|i: int|
                #![trigger items[i]]
                0 <= i < items.len() && items[i].action is None ==> items[i] == separator_item()
            &&& forall|i: int|
                #![trigger items[i]]
                0 <= i < items.len() - 1 && items[i].action is None ==> items[i + 1].action is Some
        }),
    decreases entries.len(),
{
    if entries.len() > 0 {
        lemma_built_divided(keymap, ctx, suspended, entries.drop_last());
    }
}

/// In every menu of the bar, whatever table it is built from, dividers only divide.
pub proof fn dividers_only_divide(
    keymap: Keymap,
    has_selection: bool,
    suspended: bool,
    entries: Seq<Entry>,
)
    ensures
        well_divided(menu_of(keymap, has_selection, suspended, entries)),
{
    lemma_built_divided(keymap, context_models(keymap, has_selection), suspended, entries);
    let items = built(keymap, context_models(keymap, has_selection), suspended, entries);
    let menu = menu_of(keymap, has_selection, suspended, entries);
    if menu.len() < items.len() && menu.len() > 0 {
        assert(menu.last() == items[items.len() - 2]);
    }
}

/// Every row of every menu is either a divider, or carries the chord that the keymap
/// has for its action and no other; and while the keyboard is not ours it is greyed.
pub proof fn rows_follow_the_keymap_and_the_focus(
    keymap: Keymap,
    has_selection: bool,
    suspended: bool,
    entries: Seq<Entry>,
)
    ensures
        forall|i: int|
            #![trigger menu_of(keymap, has_selection, suspended, entries)[i]]
            0 <= i < menu_of(keymap, has_selection, suspended, entries).len() ==> {
                let item = menu_of(keymap, has_selection, suspended, entries)[i];
                &&& item.action is Some ==> item.key == key_model(keymap, item.action->0)
                &&& item.action is None ==> item == separator_item()
                &&& suspended ==> !item.enabled
            },
{
    lemma_rows_follow(keymap, context_models(keymap, has_selection), suspended, entries);
}

proof fn lemma_rows_follow(keymap: Keymap, ctx: Seq<ContextModel>, suspended: bool, entries: Seq<Entry>)
    ensures
        forall|i: int|
            #![trigger built(keymap, ctx, suspended, entries)[i]]
            0 <= i < built(keymap, ctx, suspended, entries).len() ==> {
                let item = built(keymap, ctx, suspended, entries)[i];
                &&& item.action is Some ==> item.key == key_model(keymap, item.action->0)
                &&& item.action is None ==> item == separator_item()
                &&& suspended ==> !item.enabled
            },
    decreases entries.len(),
{
    if entries.len() > 0 {
        lemma_rows_follow(keymap, ctx, suspended, entries.drop_last());
    }
}

/// What does not change with the state: all of a row but its enabled flag.
pub open spec fn same_shape(a: Seq<ItemModel>, b: Seq<ItemModel>) -> bool {
    &&& a.len() == b.len()
    &&& forall|i: int|
        #![trigger a[i]]
        #![trigger b[i]]
        0 <= i < a.len() ==> a[i].label == b[i].label && a[i].key == b[i].key && a[i].action == b[i].action
}

spec fn same_context(a: Seq<ContextModel>, b: Seq<ContextModel>) -> bool {
    &&& a.len() == b.len()
    &&& forall|i: int|
        #![trigger a[i]]
        #![trigger b[i]]
        0 <= i < a.len() ==> a[i].label == b[i].label && a[i].action == b[i].action
}

spec fn same_rows(a: Seq<RowModel>, b: Seq<RowModel>) -> bool {
    &&& a.len() == b.len()
    &&& forall|i: int|
        #![trigger a[i]]
        #![trigger b[i]]
        0 <= i < a.len() ==> a[i].label == b[i].label && a[i].action == b[i].action
}

proof fn lemma_same_actionable(a: Seq<RowModel>, b: Seq<RowModel>)
    requires
        same_rows(a, b),
    ensures
        same_context(actionable(a), actionable(b)),
    decreases a.len(),
{
    if a.len() > 0 {
        assert(a.last() == a[a.len() - 1]);
        assert(b.last() == b[b.len() - 1]);
        assert(same_rows(a.drop_last(), b.drop_last()));
        lemma_same_actionable(a.drop_last(), b.drop_last());
    }
}

proof fn lemma_same_found(a: Seq<ContextModel>, b: Seq<ContextModel>, action: Action)
    requires
        same_context(a, b),
    ensures
        context_row(a, action) is Some <==> context_row(b, action) is Some,
        context_row(a, action) is Some ==> context_row(a, action)->0.label == context_row(b, action)->0.label,
    decreases a.len(),
{
    if a.len() > 0 {
        assert(a[0].action == b[0].action);
        assert(same_context(a.skip(1), b.skip(1)));
        lemma_same_found(a.skip(1), b.skip(1), action);
    }
}

proof fn lemma_same_built(
    keymap: Keymap,
    ctx1: Seq<ContextModel>,
    suspended1: bool,
    ctx2: Seq<ContextModel>,
    suspended2: bool,
    entries: Seq<Entry>,
)
    requires
        same_context(ctx1, ctx2),
    ensures
        same_shape(built(keymap, ctx1, suspended1, entries), built(keymap, ctx2, suspended2, entries)),
    decreases entries.len(),
{
    if entries.len() > 0 {
        let rest = entries.drop_last();
        lemma_same_built(keymap, ctx1, suspended1, ctx2, suspended2, rest);
        let a = built(keymap, ctx1, suspended1, rest);
        let b = built(keymap, ctx2, suspended2, rest);
        if a.len() > 0 {
            assert(a.last() == a[a.len() - 1]);
            assert(b.last() == b[b.len() - 1]);
        }
        assert(ends_in_row(a) == ends_in_row(b));
        match entries.last() {
            Entry::Ctx(action) => {
                lemma_same_found(ctx1, ctx2, action);
            },
            Entry::Relabel(action, _) => {
                lemma_same_found(ctx1, ctx2, action);
            },
            _ => {},
        }
    }
}

proof fn lemma_same_menu(
    keymap: Keymap,
    sel1: bool,
    suspended1: bool,
    sel2: bool,
    suspended2: bool,
    entries: Seq<Entry>,
)
    ensures
        same_shape(
            menu_of(keymap, sel1, suspended1, entries),
            menu_of(keymap, sel2, suspended2, entries),
        ),
{
    let none = Seq::<String>::empty();
    let blank = Seq::<char>::empty();
    let a = menu_rows(keymap, sel1, None, none, blank);
    let b = menu_rows(keymap, sel2, None, none, blank);
    assert(same_rows(clipboard_rows(keymap, sel1), clipboard_rows(keymap, sel2)));
    assert(same_rows(a, b)) by {
        assert forall|i: int|
            #![trigger a[i]]
            #![trigger b[i]]
            0 <= i < a.len() implies a[i].label == b[i].label && a[i].action == b[i].action by {
            if i < 3 {
                assert(a[i] == clipboard_rows(keymap, sel1)[i]);
                assert(b[i] == clipboard_rows(keymap, sel2)[i]);
            }
        }
    }
    lemma_same_actionable(a, b);
    let ctx1 = context_models(keymap, sel1);
    let ctx2 = context_models(keymap, sel2);
    lemma_same_built(keymap, ctx1, suspended1, ctx2, suspended2, entries);
    let m1 = built(keymap, ctx1, suspended1, entries);
    let m2 = built(keymap, ctx2, suspended2, entries);
    if m1.len() > 0 {
        assert(m1.last() == m1[m1.len() - 1]);
        assert(m2.last() == m2[m2.len() - 1]);
    }
}

/// Whether two bars have the same menus with the same rows, up to the enabled flags.
pub open spec fn same_menus(a: Seq<MenuModel>, b: Seq<MenuModel>) -> bool {
    &&& a.len() == b.len()
    &&& forall|i: int|
        #![trigger a[i]]
        #![trigger b[i]]
        0 <= i < a.len() ==> a[i].title == b[i].title && same_shape(a[i].items, b[i].items)
}

proof fn lemma_same_menus(
    keymap: Keymap,
    sel1: bool,
    suspended1: bool,
    sel2: bool,
    suspended2: bool,
    table: Seq<(&'static str, Seq<Entry>)>,
)
    ensures
        same_menus(
            menus_of(keymap, sel1, suspended1, table),
            menus_of(keymap, sel2, suspended2, table),
        ),
    decreases table.len(),
{
    if table.len() > 0 {
        lemma_same_menus(keymap, sel1, suspended1, sel2, suspended2, table.drop_last());
        lemma_same_menu(keymap, sel1, suspended1, sel2, suspended2, table.last().1);
    }
}

/// The bar's structure does not depend on the state: with or without a selection,
/// with or without the keyboard, it has the same menus with the same rows in the same
/// places, and only their enabled flags differ.
pub proof fn structure_is_independent_of_state(
    keymap: Keymap,
    sel1: bool,
    suspended1: bool,
    sel2: bool,
    suspended2: bool,
)
    ensures
        same_shape(
            menu_of(keymap, sel1, suspended1, app_entries()),
            menu_of(keymap, sel2, suspended2, app_entries()),
        ),
        same_menus(
            menus_of(keymap, sel1, suspended1, category_table()),
            menus_of(keymap, sel2, suspended2, category_table()),
        ),
{
    lemma_same_menu(keymap, sel1, suspended1, sel2, suspended2, app_entries());
    lemma_same_menus(keymap, sel1, suspended1, sel2, suspended2, category_table());
}

/// A place in the right-click menu's fixed part, and the label there.
pub struct ItemPlace {
    pub at: int,
    pub label: &'static str,
}

/// Where an action stands in the right-click menu's fixed part, and under which label.
pub open spec fn item_place(action: Action) -> Option<ItemPlace> {
    match action {
        Action::SplitHoriz => Some(ItemPlace { at: 0, label: "Split Horizontally" }),
        Action::SplitVert => Some(ItemPlace { at: 1, label: "Split Vertically" }),
        Action::SplitAuto => Some(ItemPlace { at: 2, label: "Split Automatically" }),
        Action::Rotate => Some(ItemPlace { at: 3, label: "Rotate Split" }),
        Action::NewTab => Some(ItemPlace { at: 4, label: "New Tab" }),
        Action::NewWindow => Some(ItemPlace { at: 5, label: "New Window" }),
        Action::ToggleZoom => Some(ItemPlace { at: 6, label: "Maximise / Restore Pane" }),
        Action::DetachPane => Some(ItemPlace { at: 7, label: "Detach Pane to New Window" }),
        Action::DetachTab => Some(ItemPlace { at: 8, label: "Detach Tab to New Window" }),
        Action::PickUpPane => Some(ItemPlace { at: 9, label: "Pick Up Pane" }),
        Action::PickUpTab => Some(ItemPlace { at: 10, label: "Pick Up Tab" }),
        Action::Search => Some(ItemPlace { at: 11, label: "Search Scrollback…" }),
        Action::ClearClipHistory => Some(ItemPlace { at: 12, label: "Clear Clipboard History" }),
        Action::CloseTerm => Some(ItemPlace { at: 14, label: "Close Terminal" }),
        Action::GroupCycle => Some(ItemPlace { at: 16, label: "Group: Cycle This Pane's Colour" }),
        Action::BroadcastOff => Some(ItemPlace { at: 17, label: "Broadcast: Off" }),
        Action::BroadcastAll => Some(ItemPlace { at: 18, label: "Broadcast: All" }),
        Action::BroadcastGroup => Some(ItemPlace { at: 19, label: "Broadcast: Group (same colour)" }),
        Action::ColumnsMore => Some(ItemPlace { at: 21, label: "More Columns" }),
        Action::ColumnsFewer => Some(ItemPlace { at: 22, label: "Fewer Columns" }),
        Action::ToggleFocusFollowsMouse => Some(ItemPlace { at: 24, label: "Toggle Focus-Follows-Mouse" }),
        Action::Preferences => Some(ItemPlace { at: 25, label: "Preferences…" }),
        Action::Manual => Some(ItemPlace { at: 26, label: "Manual" }),
        _ => None,
    }
}

proof fn lemma_item_places()
    ensures
        forall|i: int|
            #![trigger menu_items()[i]]
            0 <= i < menu_items().len() && menu_items()[i] is Action ==> item_place(
                menu_items()[i]->Action_1,
            ) == Some(ItemPlace { at: i, label: menu_items()[i]->Action_0 }),
        forall|a: Action|
            #![trigger item_place(a)]
            item_place(a) is Some ==> 0 <= item_place(a)->0.at < menu_items().len()
                && menu_items()[item_place(a)->0.at] == Item::Action(item_place(a)->0.label, a),
{
}

proof fn lemma_item_rows(keymap: Keymap, items: Seq<Item>)
    ensures
        ({
            let rows = rows_of_items(keymap, Seq::<String>::empty(), items);
            &&& rows.len() == items.len()
            &&& forall|i: int|
                #![trigger rows[i]]
                0 <= i < items.len() ==> rows[i] == match items[i] {
                    Item::Separator => separator_row(),
                    Item::Action(label, action) => action_row(keymap, label@, action, true),
                }
        }),
    decreases items.len(),
{
    if items.len() > 0 {
        lemma_item_rows(keymap, items.drop_last());
        let none = Seq::<String>::empty();
        assert(rows_of_item(keymap, none, items.last()) =~= seq![
            match items.last() {
                Item::Separator => separator_row(),
                Item::Action(label, action) => action_row(keymap, label@, action, true),
            },
        ]);
    }
}

/// A row of the right-click menu as the bar reads it.
spec fn as_context(row: RowModel) -> Option<ContextModel> {
    match row.action {
        Some(Meaning::Do(action)) => Some(
            ContextModel { action, label: row.label, enabled: row.enabled },
        ),
        _ => None,
    }
}

proof fn lemma_actionable_members(rows: Seq<RowModel>)
    ensures
        forall|j: int|
            #![trigger actionable(rows)[j]]
            0 <= j < actionable(rows).len() ==> exists|i: int|
                0 <= i < rows.len() && as_context(#[trigger] rows[i]) == Some(actionable(rows)[j]),
        forall|i: int|
            #![trigger rows[i]]
            0 <= i < rows.len() && as_context(rows[i]) is Some ==> actionable(rows).contains(
                as_context(rows[i])->0,
            ),
    decreases rows.len(),
{
    if rows.len() > 0 {
        let rest = rows.drop_last();
        lemma_actionable_members(rest);
        let all = actionable(rows);
        assert forall|j: int|
            #![trigger actionable(rows)[j]]
            0 <= j < all.len() implies exists|i: int|
            0 <= i < rows.len() && as_context(#[trigger] rows[i]) == Some(actionable(rows)[j]) by {
            if j < actionable(rest).len() {
                let i = choose|i: int|
                    0 <= i < rest.len() && as_context(#[trigger] rest[i]) == Some(actionable(rest)[j]);
                assert(rows[i] == rest[i]);
            } else {
                assert(rows[rows.len() - 1] == rows.last());
            }
        }
        assert forall|i: int|
            #![trigger rows[i]]
            0 <= i < rows.len() && as_context(rows[i]) is Some implies all.contains(
            as_context(rows[i])->0,
        ) by {
            if i < rest.len() {
                assert(rows[i] == rest[i]);
                let x = as_context(rest[i])->0;
                let j = choose|j: int| 0 <= j < actionable(rest).len() && actionable(rest)[j] == x;
                assert(all[j] == x);
            } else {
                assert(all[all.len() - 1] == as_context(rows[i])->0);
            }
        }
    }
}

proof fn lemma_found(ctx: Seq<ContextModel>, row: ContextModel)
    requires
        ctx.contains(row),
        forall|i: int| #![trigger ctx[i]] 0 <= i < ctx.len() && ctx[i].action == row.action ==> ctx[i] == row,
    ensures
        context_row(ctx, row.action) == Some(row),
    decreases ctx.len(),
{
    if ctx[0].action != row.action {
        let k = choose|k: int| 0 <= k < ctx.len() && ctx[k] == row;
        assert(ctx.skip(1)[k - 1] == row);
        lemma_found(ctx.skip(1), row);
    }
}

proof fn lemma_not_found(ctx: Seq<ContextModel>, action: Action)
    requires
        forall|i: int| #![trigger ctx[i]] 0 <= i < ctx.len() ==> ctx[i].action != action,
    ensures
        context_row(ctx, action) is None,
    decreases ctx.len(),
{
    if ctx.len() > 0 {
        lemma_not_found(ctx.skip(1), action);
    }
}

/// The row that the right-click menu has for `action`, if any.
pub open spec fn context_menu_row(has_selection: bool, action: Action) -> Option<ContextModel> {
    if action == Action::Copy {
        Some(ContextModel { action, label: "Copy"@, enabled: has_selection })
    } else if action == Action::Paste {
        Some(ContextModel { action, label: "Paste"@, enabled: true })
    } else {
        match item_place(action) {
            Some(place) => Some(ContextModel { action, label: place.label@, enabled: true }),
            None => None,
        }
    }
}

/// What the bar finds in the right-click menu for an action: Copy follows the
/// selection, every other row is always live, and an action without a row has none.
pub proof fn context_menu_has(keymap: Keymap, has_selection: bool, action: Action)
    ensures
        context_row(context_models(keymap, has_selection), action) == context_menu_row(
            has_selection,
            action,
        ),
{
    let none = Seq::<String>::empty();
    let blank = Seq::<char>::empty();
    let rows = menu_rows(keymap, has_selection, None, none, blank);
    let body = rows_of_items(keymap, none, menu_items());
    let ctx = context_models(keymap, has_selection);
    lemma_item_places();
    lemma_item_rows(keymap, menu_items());
    lemma_actionable_members(rows);
    assert forall|i: int| #![trigger rows[i]] 0 <= i < rows.len() && as_context(rows[i]) is Some implies Some(
        as_context(rows[i])->0,
    ) == context_menu_row(has_selection, as_context(rows[i])->0.action) by {
        if i < 3 {
            assert(rows[i] == clipboard_rows(keymap, has_selection)[i]);
        } else if i < 3 + menu_items().len() {
            assert(rows[i] == body[i - 3]);
            assert(menu_items()[i - 3] is Action);
        } else {
            assert(rows[i] == footer_rows(blank)[i - 3 - menu_items().len()]);
        }
    }
    assert forall|j: int| #![trigger ctx[j]] 0 <= j < ctx.len() implies Some(ctx[j]) == context_menu_row(
        has_selection,
        ctx[j].action,
    ) by {
        let i = choose|i: int| 0 <= i < rows.len() && as_context(#[trigger] rows[i]) == Some(actionable(rows)[j]);
        assert(as_context(rows[i]) is Some);
    }
    match context_menu_row(has_selection, action) {
        Some(row) => {
            let i: int = if action == Action::Copy {
                0
            } else if action == Action::Paste {
                1
            } else {
                3 + item_place(action)->0.at
            };
            if i < 3 {
                assert(rows[i] == clipboard_rows(keymap, has_selection)[i]);
            } else {
                assert(rows[i] == body[i - 3]);
            }
            assert(as_context(rows[i]) == Some(row));
            lemma_found(ctx, row);
        },
        None => {
            lemma_not_found(ctx, action);
        },
    }
}

/// The action of an entry.
pub open spec fn entry_action(entry: Entry) -> Option<Action> {
    match entry {
        Entry::Sep => None,
        Entry::Ctx(a) => Some(a),
        Entry::Extra(a, _) => Some(a),
        Entry::Relabel(a, _) => Some(a),
    }
}

/// A table that can be shown row for row: its dividers only divide, and every row it
/// takes from the right-click menu exists there.
pub open spec fn showable(entries: Seq<Entry>) -> bool {
    &&& entries.len() > 0
    &&& !(entries.first() is Sep)
    &&& !(entries.last() is Sep)
    &&& forall|i: int|
        #![trigger entries[i]]
        0 <= i < entries.len() - 1 && entries[i] is Sep ==> !(entries[i + 1] is Sep)
    &&& forall|i: int|
        #![trigger entries[i]]
        0 <= i < entries.len() && (entries[i] is Ctx || entries[i] is Relabel) ==> context_menu_row(
            false,
            entry_action(entries[i])->0,
        ) is Some
}

/// The row of an entry.
pub open spec fn shown(keymap: Keymap, has_selection: bool, suspended: bool, entry: Entry) -> ItemModel {
    match entry {
        Entry::Sep => separator_item(),
        Entry::Ctx(action) => {
            let row = context_menu_row(has_selection, action)->0;
            ItemModel {
                label: row.label,
                key: key_model(keymap, action),
                action: Some(action),
                enabled: row.enabled && !suspended,
            }
        },
        Entry::Relabel(action, label) => ItemModel {
            label: label@,
            key: key_model(keymap, action),
            action: Some(action),
            enabled: context_menu_row(has_selection, action)->0.enabled && !suspended,
        },
        Entry::Extra(action, label) => ItemModel {
            label: label@,
            key: key_model(keymap, action),
            action: Some(action),
            enabled: !suspended,
        },
    }
}

proof fn lemma_shown_built(
    keymap: Keymap,
    has_selection: bool,
    suspended: bool,
    entries: Seq<Entry>,
    n: int,
)
    requires
        showable(entries),
        0 <= n <= entries.len(),
    ensures
        built(keymap, context_models(keymap, has_selection), suspended, entries.take(n)) =~= Seq::new(
            n as nat,
            |i: int| shown(keymap, has_selection, suspended, entries[i]),
        ),
    decreases n,
{
    if n > 0 {
        lemma_shown_built(keymap, has_selection, suspended, entries, n - 1);
        assert(entries.take(n).drop_last() =~= entries.take(n - 1));
        let entry = entries[n - 1];
        assert(entries.take(n).last() == entry);
        if entry is Sep {
            assert(n > 1);
            assert(!(entries[n - 2] is Sep));
        } else if entry is Ctx || entry is Relabel {
            context_menu_has(keymap, has_selection, entry_action(entry)->0);
        }
    }
}

/// A table that can be shown row for row is.
pub proof fn shown_row_for_row(keymap: Keymap, has_selection: bool, suspended: bool, entries: Seq<Entry>)
    requires
        showable(entries),
    ensures
        menu_of(keymap, has_selection, suspended, entries) == Seq::new(
            entries.len(),
            |i: int| shown(keymap, has_selection, suspended, entries[i]),
        ),
{
    lemma_shown_built(keymap, has_selection, suspended, entries, entries.len() as int);
    assert(entries.take(entries.len() as int) =~= entries);
    let items = built(keymap, context_models(keymap, has_selection), suspended, entries);
    assert(items.last() == shown(keymap, has_selection, suspended, entries.last()));
}

/// The bar's tables: the application menu's first, then those of the menus.
pub open spec fn sections() -> Seq<Seq<Entry>> {
    seq![
        app_entries(),
        shell_entries(),
        edit_entries(),
        view_entries(),
        window_entries(),
        help_entries(),
    ]
}

/// Every entry that the bar takes from the right-click menu has a row there, and every
/// table can be shown row for row.
pub proof fn every_entry_has_its_row()
    ensures
        forall|k: int| #![trigger sections()[k]] 0 <= k < sections().len() ==> showable(sections()[k]),
{
    assert(showable(app_entries()));
    assert(showable(shell_entries()));
    assert(showable(edit_entries()));
    assert(showable(view_entries()));
    assert(showable(window_entries()));
    assert(showable(help_entries()));
}

/// The bar reads Shell, Edit, View, Window, Help, and each menu shows its table row
/// for row; so does the application menu.
pub proof fn the_bar_shows_its_tables(keymap: Keymap, has_selection: bool, suspended: bool)
    ensures
        menu_of(keymap, has_selection, suspended, app_entries()).len() == sections()[0].len(),
        menus_of(keymap, has_selection, suspended, category_table()) =~= seq![
            MenuModel {
                title: "Shell",
                items: menu_of(keymap, has_selection, suspended, shell_entries()),
            },
            MenuModel {
                title: "Edit",
                items: menu_of(keymap, has_selection, suspended, edit_entries()),
            },
            MenuModel {
                title: "View",
                items: menu_of(keymap, has_selection, suspended, view_entries()),
            },
            MenuModel {
                title: "Window",
                items: menu_of(keymap, has_selection, suspended, window_entries()),
            },
            MenuModel {
                title: "Help",
                items: menu_of(keymap, has_selection, suspended, help_entries()),
            },
        ],
        forall|k: int, i: int|
            #![trigger sections()[k][i]]
            0 <= k < sections().len() && 0 <= i < sections()[k].len() ==> menu_of(
                keymap,
                has_selection,
                suspended,
                sections()[k],
            )[i] == shown(keymap, has_selection, suspended, sections()[k][i]),
{
    every_entry_has_its_row();
    assert forall|k: int| #![trigger sections()[k]] 0 <= k < sections().len() implies menu_of(
        keymap,
        has_selection,
        suspended,
        sections()[k],
    ) == Seq::new(
        sections()[k].len(),
        |i: int| shown(keymap, has_selection, suspended, sections()[k][i]),
    ) by {
        shown_row_for_row(keymap, has_selection, suspended, sections()[k]);
    }
    assert(sections()[1] == shell_entries());
    assert(sections()[2] == edit_entries());
    assert(sections()[3] == view_entries());
    assert(sections()[4] == window_entries());
    assert(sections()[5] == help_entries());
    let t = category_table();
    let t4 = t.drop_last();
    let t3 = t4.drop_last();
    let t2 = t3.drop_last();
    let t1 = t2.drop_last();
    assert(t1.drop_last() =~= Seq::empty());
    assert(menus_of(keymap, has_selection, suspended, t1.drop_last()) =~= Seq::empty());
    assert(menus_of(keymap, has_selection, suspended, t1).len() == 1);
    assert(menus_of(keymap, has_selection, suspended, t2).len() == 2);
    assert(menus_of(keymap, has_selection, suspended, t3).len() == 3);
    assert(menus_of(keymap, has_selection, suspended, t4).len() == 4);
}

/// A place in the bar: a section (the application menu, then the menus) and a row.
pub struct BarPlace {
    pub section: int,
    pub at: int,
}

/// Where an action stands in the bar.
pub open spec fn bar_place(action: Action) -> Option<BarPlace> {
    match action {
        Action::Preferences => Some(BarPlace { section: 0, at: 0 }),
        Action::NewWindow => Some(BarPlace { section: 1, at: 0 }),
        Action::NewTab => Some(BarPlace { section: 1, at: 1 }),
        Action::SplitVert => Some(BarPlace { section: 1, at: 3 }),
        Action::SplitHoriz => Some(BarPlace { section: 1, at: 4 }),
        Action::SplitAuto => Some(BarPlace { section: 1, at: 5 }),
        Action::Rotate => Some(BarPlace { section: 1, at: 6 }),
        Action::BroadcastOff => Some(BarPlace { section: 1, at: 8 }),
        Action::BroadcastAll => Some(BarPlace { section: 1, at: 9 }),
        Action::BroadcastGroup => Some(BarPlace { section: 1, at: 10 }),
        Action::GroupCycle => Some(BarPlace { section: 1, at: 11 }),
        Action::CloseTerm => Some(BarPlace { section: 1, at: 13 }),
        Action::CloseWindow => Some(BarPlace { section: 1, at: 14 }),
        Action::Copy => Some(BarPlace { section: 2, at: 0 }),
        Action::Paste => Some(BarPlace { section: 2, at: 1 }),
        Action::Search => Some(BarPlace { section: 2, at: 3 }),
        Action::ClipHistory => Some(BarPlace { section: 2, at: 5 }),
        Action::ClearClipHistory => Some(BarPlace { section: 2, at: 6 }),
        Action::ZoomIn => Some(BarPlace { section: 3, at: 0 }),
        Action::ZoomOut => Some(BarPlace { section: 3, at: 1 }),
        Action::ZoomReset => Some(BarPlace { section: 3, at: 2 }),
        Action::Fullscreen => Some(BarPlace { section: 3, at: 4 }),
        Action::ColumnsMore => Some(BarPlace { section: 3, at: 6 }),
        Action::ColumnsFewer => Some(BarPlace { section: 3, at: 7 }),
        Action::ToggleFocusFollowsMouse => Some(BarPlace { section: 3, at: 9 }),
        Action::ToggleZoom => Some(BarPlace { section: 4, at: 0 }),
        Action::NextTab => Some(BarPlace { section: 4, at: 2 }),
        Action::PrevTab => Some(BarPlace { section: 4, at: 3 }),
        Action::MoveTabLeft => Some(BarPlace { section: 4, at: 4 }),
        Action::MoveTabRight => Some(BarPlace { section: 4, at: 5 }),
        Action::DetachPane => Some(BarPlace { section: 4, at: 7 }),
        Action::DetachTab => Some(BarPlace { section: 4, at: 8 }),
        Action::PickUpPane => Some(BarPlace { section: 4, at: 9 }),
        Action::PickUpTab => Some(BarPlace { section: 4, at: 10 }),
        Action::Manual => Some(BarPlace { section: 5, at: 0 }),
        _ => None,
    }
}

/// No action is filed in two places: wherever the bar shows an action is the one place
/// it has.
pub proof fn no_action_is_filed_in_two_places()
    ensures
        forall|k: int, i: int|
            #![trigger sections()[k][i]]
            0 <= k < sections().len() && 0 <= i < sections()[k].len() && entry_action(sections()[k][i]) is Some
                ==> bar_place(entry_action(sections()[k][i])->0) == Some(BarPlace { section: k, at: i }),
{
    assert forall|k: int, i: int|
        #![trigger sections()[k][i]]
        0 <= k < sections().len() && 0 <= i < sections()[k].len() && entry_action(sections()[k][i]) is Some
            implies bar_place(entry_action(sections()[k][i])->0) == Some(BarPlace { section: k, at: i }) by {
        if k == 0 {
            assert(sections()[k] == app_entries());
        } else if k == 1 {
            assert(sections()[k] == shell_entries());
        } else if k == 2 {
            assert(sections()[k] == edit_entries());
        } else if k == 3 {
            assert(sections()[k] == view_entries());
        } else if k == 4 {
            assert(sections()[k] == window_entries());
        } else {
            assert(sections()[k] == help_entries());
        }
    }
}

/// Every action of the right-click menu is somewhere in the bar, under the label it has
/// there; the one exception to the label is Settings.
pub proof fn every_context_menu_action_is_in_the_bar(action: Action, has_selection: bool)
    requires
        context_menu_row(has_selection, action) is Some,
    ensures
        bar_place(action) is Some,
        ({
            let place = bar_place(action)->0;
            let entry = sections()[place.section][place.at];
            &&& 0 <= place.section < sections().len()
            &&& 0 <= place.at < sections()[place.section].len()
            &&& if action == Action::Preferences {
                entry == Entry::Relabel(action, "Settings…")
            } else {
                entry == Entry::Ctx(action)
            }
        }),
{
    let place = bar_place(action)->0;
    if place.section == 1 {
        assert(sections()[1] == shell_entries());
    } else if place.section == 2 {
        assert(sections()[2] == edit_entries());
    } else if place.section == 3 {
        assert(sections()[3] == view_entries());
    } else if place.section == 4 {
        assert(sections()[4] == window_entries());
    }
}

} // verus!
