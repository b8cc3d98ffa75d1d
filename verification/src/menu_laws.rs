//! What holds of the menus whatever the keymap and the state: where each row stands, which
//! chord it shows, and what clicking it does.
use vstd::prelude::*;
use crate::keymap::{Action, Chord, Keymap};
use crate::menu::{
    action_row, clipboard_rows, footer_rows, link_rows, menu_items, menu_rows, move_rows, row_models, rows,
    rows_of_items, separator_row, Item, Meaning, MenuPick, Row, RowAction, RowModel,
};
use crate::menubar_laws::{
    every_entry_has_its_row, item_place, sections, shown, shown_row_for_row, the_bar_shows_its_tables,
};
use crate::menubar_model::{
    app_entries, chord_key_equivalent, edit_entries, help_entries, item_models, key_equivalent, menu_models,
    menu_of, model, shell_entries, view_entries, window_entries, BarItem, BarModel, KeyEquivalent,
};
use crate::native::{closes_panel, finds_in_manual, Bridge, DropInbox, DropNews, NativeMods};
use crate::geometry::Point;
use crate::text::text_view;

verus! {

/// The chord bound last counts: it runs its action, the action's menu rows show it, and
/// what else was bound stays bound.
pub proof fn the_last_binding_counts(
    keymap: &mut Keymap,
    chord: Chord,
    action: Action,
    accel: &str,
    c: Chord,
    a: Action,
    ran: Option<Action>,
    ran_before: Option<Action>,
    shown: Option<Chord>,
    shown_before: Option<Chord>,
    spelt: Option<String>,
    spelt_before: Option<String>,
)
    requires
        call_ensures(Keymap::bind, (keymap, chord, action, accel), ()),
        call_ensures(Keymap::action_for, (&*final(keymap), c), ran),
        call_ensures(Keymap::action_for, (&*old(keymap), c), ran_before),
        call_ensures(Keymap::chord_for, (&*final(keymap), a), shown),
        call_ensures(Keymap::chord_for, (&*old(keymap), a), shown_before),
        call_ensures(Keymap::shortcut_for, (&*final(keymap), a), spelt),
        call_ensures(Keymap::shortcut_for, (&*old(keymap), a), spelt_before),
    ensures
        ran == (if c == chord {
            Some(action)
        } else {
            ran_before
        }),
        shown == (if a == action {
            Some(chord)
        } else {
            shown_before
        }),
        text_view(spelt) == (if a == action {
            Some(accel@)
        } else {
            text_view(spelt_before)
        }),
{
}

/// A new keymap binds nothing.
pub proof fn a_new_keymap_binds_nothing(
    keymap: Keymap,
    c: Chord,
    a: Action,
    ran: Option<Action>,
    shown: Option<Chord>,
    spelt: Option<String>,
)
    requires
        call_ensures(Keymap::new, (), keymap),
        call_ensures(Keymap::action_for, (&keymap, c), ran),
        call_ensures(Keymap::chord_for, (&keymap, a), shown),
        call_ensures(Keymap::shortcut_for, (&keymap, a), spelt),
    ensures
        ran is None,
        shown is None,
        spelt is None,
{
}

/// Where the fixed part's row `i` stands among its rows, with `n` windows listed.
spec fn place(i: int, n: int) -> int {
    if i <= 8 {
        i
    } else {
        i + n
    }
}

/// The row of the fixed part's entry `i`.
#[verifier::opaque]
spec fn fixed_row(keymap: Keymap, i: int) -> RowModel {
    match menu_items()[i] {
        Item::Separator => separator_row(),
        Item::Action(label, action) => action_row(keymap, label@, action, true),
    }
}

proof fn lemma_fixed_row(keymap: Keymap, i: int)
    requires
        0 <= i < 27,
    ensures
        ({
            let row = fixed_row(keymap, i);
            match row.action {
                Some(Meaning::Do(action)) => row == action_row(keymap, row.label, action, true) && action
                    != Action::Copy,
                Some(_) => false,
                None => row == separator_row(),
            }
        }),
{
    reveal(fixed_row);
}

proof fn lemma_fixed_part(keymap: Keymap, targets: Seq<String>, n: int)
    requires
        0 <= n <= menu_items().len(),
    ensures
        ({
            let rows = rows_of_items(keymap, targets, menu_items().take(n));
            let listed = if n > 8 {
                targets.len() as int
            } else {
                0
            };
            &&& rows.len() == n + listed
            &&& forall|i: int|
                #![trigger fixed_row(keymap, i)]
                0 <= i < n ==> rows[place(i, listed)] == fixed_row(keymap, i)
            &&& forall|k: int| 0 <= k < listed ==> rows[9 + k] == #[trigger] move_rows(targets)[k]
        }),
    decreases n,
{
    reveal(fixed_row);
    if n > 0 {
        lemma_fixed_part(keymap, targets, n - 1);
        assert(menu_items().take(n).drop_last() =~= menu_items().take(n - 1));
        assert(menu_items().take(n).last() == menu_items()[n - 1]);
        assert(menu_items()[n - 1] is Action && menu_items()[n - 1]->Action_1 == Action::DetachTab <==> n == 9);
        let before = rows_of_items(keymap, targets, menu_items().take(n - 1));
        let rows = rows_of_items(keymap, targets, menu_items().take(n));
        let listed = if n > 8 {
            targets.len() as int
        } else {
            0
        };
        assert forall|i: int|
            #![trigger fixed_row(keymap, i)]
            0 <= i < n implies rows[place(i, listed)] == fixed_row(keymap, i) by {
            if i < n - 1 {
                assert(rows[place(i, listed)] == before[place(i, listed)]);
            }
        }
    }
}

proof fn lemma_whole_menu(keymap: Keymap, has_selection: bool, url: Option<&str>, targets: Seq<String>, version: Seq<char>)
    ensures
        ({
            let all = menu_rows(keymap, has_selection, url, targets, version);
            let top: int = if url is Some {
                3
            } else {
                0
            };
            let n = targets.len() as int;
            &&& all.len() == top + 32 + n
            &&& forall|i: int| 0 <= i < top ==> all[i] == #[trigger] link_rows(url)[i]
            &&& forall|i: int|
                0 <= i < 3 ==> all[top + i] == #[trigger] clipboard_rows(keymap, has_selection)[i]
            &&& forall|i: int|
                #![trigger fixed_row(keymap, i)]
                0 <= i < 27 ==> all[top + 3 + place(i, n)] == fixed_row(keymap, i)
            &&& forall|k: int| 0 <= k < n ==> all[top + 12 + k] == #[trigger] move_rows(targets)[k]
            &&& forall|i: int| 0 <= i < 2 ==> all[top + 30 + n + i] == #[trigger] footer_rows(version)[i]
        }),
{
    assert(menu_items().len() == 27);
    lemma_fixed_part(keymap, targets, 27);
    assert(menu_items().take(27) =~= menu_items());
    let body = rows_of_items(keymap, targets, menu_items());
    let all = menu_rows(keymap, has_selection, url, targets, version);
    let top: int = if url is Some {
        3
    } else {
        0
    };
    let n = targets.len() as int;
    assert(link_rows(url).len() == top);
    assert forall|i: int|
        #![trigger fixed_row(keymap, i)]
        0 <= i < 27 implies all[top + 3 + place(i, n)] == fixed_row(keymap, i) by {
        assert(all[top + 3 + place(i, n)] == body[place(i, n)]);
    }
    assert forall|k: int| 0 <= k < n implies all[top + 12 + k] == #[trigger] move_rows(targets)[k] by {
        assert(all[top + 12 + k] == body[9 + k]);
    }
}

proof fn lemma_places(keymap: Keymap, action: Action)
    ensures
        item_place(action) is Some ==> 0 <= item_place(action)->0.at < 27 && fixed_row(
            keymap,
            item_place(action)->0.at,
        ) == action_row(keymap, item_place(action)->0.label@, action, true),
{
    reveal(fixed_row);
    if item_place(action) is Some {
        assert(menu_items()[item_place(action)->0.at] == Item::Action(item_place(action)->0.label, action));
    }
}

/// The menu begins with the link under the pointer, where there is one; then come Copy,
/// which needs a selection, and Paste. Each action stands in its place under its own label,
/// and can be clicked. The windows that the pane can move to come right behind the entry
/// that detaches a tab, in their order. At the end stands the running build, which cannot
/// be clicked.
#[verifier::rlimit(60)]
#[verifier::spinoff_prover]
pub proof fn the_menu_reads_top_to_bottom(
    keymap: &Keymap,
    has_selection: bool,
    url: Option<&str>,
    targets: &Vec<String>,
    version: &str,
    r: Vec<Row>,
    action: Action,
    k: int,
)
    requires
        call_ensures(rows, (keymap, has_selection, url, targets, version), r),
    ensures
        ({
            let top: int = if url is Some {
                3
            } else {
                0
            };
            let n = targets@.len() as int;
            &&& r@.len() == top + n + 32
            &&& url is Some ==> {
                &&& r@[0].label@ == "Open Link"@ && r@[0].enabled && r@[0].action is Some
                &&& r@[0].action->0@ == Meaning::OpenUrl(url->0@)
                &&& r@[1].label@ == "Copy Address"@ && r@[1].enabled && r@[1].action is Some
                &&& r@[1].action->0@ == Meaning::CopyUrl(url->0@)
                &&& r@[2].action is None && r@[2].label@.len() == 0
            }
            &&& r@[top].label@ == "Copy"@ && r@[top].action is Some
            &&& r@[top].action->0@ == Meaning::Do(Action::Copy)
            &&& r@[top].enabled == has_selection
            &&& r@[top + 1].label@ == "Paste"@ && r@[top + 1].action is Some && r@[top + 1].enabled
            &&& r@[top + 1].action->0@ == Meaning::Do(Action::Paste)
            &&& r@[top + 2].action is None && r@[top + 2].label@.len() == 0
            &&& item_place(action) is Some ==> {
                let at = item_place(action)->0.at;
                let row = r@[if at <= 8 {
                    top + 3 + at
                } else {
                    top + 3 + n + at
                }];
                &&& row.label@ == item_place(action)->0.label@
                &&& row.action is Some
                &&& row.action->0@ == Meaning::Do(action)
                &&& row.enabled
            }
            &&& r@[top + 11].action is Some && r@[top + 11].action->0@ == Meaning::Do(Action::DetachTab)
            &&& 0 <= k < n ==> {
                let row = r@[top + 12 + k];
                &&& row.label@ == "Move Pane to "@ + targets@[k]@
                &&& row.action is Some
                &&& row.action->0@ == Meaning::MoveToWindow(k as nat)
                &&& row.enabled
            }
            &&& r@.last().label@ == version@ && r@.last().action is None && !r@.last().enabled
            &&& r@[top + n + 30].action is None && r@[top + n + 30].label@.len() == 0
        }),
{
    let all = row_models(r@);
    lemma_whole_menu(*keymap, has_selection, url, targets@, version@);
    lemma_places(*keymap, action);
    lemma_places(*keymap, Action::DetachTab);
    let top: int = if url is Some {
        3
    } else {
        0
    };
    let n = targets@.len() as int;
    if url is Some {
        assert(all[0] == link_rows(url)[0]);
        assert(all[1] == link_rows(url)[1]);
        assert(all[2] == link_rows(url)[2]);
    }
    let first = 0int;
    assert(all[top + first] == clipboard_rows(*keymap, has_selection)[first]);
    assert(all[top + 1] == clipboard_rows(*keymap, has_selection)[1]);
    assert(all[top + 2] == clipboard_rows(*keymap, has_selection)[2]);
    assert(all[top + 30 + n + first] == footer_rows(version@)[first]);
    assert(all[top + 30 + n + 1] == footer_rows(version@)[1]);
    if item_place(action) is Some {
        let at = item_place(action)->0.at;
        assert(all[top + 3 + place(at, n)] == action_row(*keymap, item_place(action)->0.label@, action, true));
    }
    assert(all[top + 3 + place(8, n)] == fixed_row(*keymap, 8));
    assert(all[top + 3 + place(8, n)].action == Some(Meaning::Do(Action::DetachTab)));
    if 0 <= k < n {
        assert(all[top + 12 + k] == move_rows(targets@)[k]);
    }
    assert forall|i: int| 0 <= i < r@.len() implies #[trigger] all[i] == r@[i]@ by {}
}

/// Every row that runs an action shows the chord that the keymap has for that action, and
/// no other row shows one.
#[verifier::rlimit(60)]
#[verifier::spinoff_prover]
pub proof fn a_row_shows_the_chord_of_its_action(
    keymap: &Keymap,
    has_selection: bool,
    url: Option<&str>,
    targets: &Vec<String>,
    version: &str,
    r: Vec<Row>,
    i: int,
    chord: Option<String>,
)
    requires
        call_ensures(rows, (keymap, has_selection, url, targets, version), r),
        0 <= i < r@.len(),
        r@[i].action is Some && r@[i].action->0@ is Do ==> call_ensures(
            Keymap::shortcut_for,
            (keymap, r@[i].action->0@->Do_0),
            chord,
        ),
    ensures
        r@[i].action is Some && r@[i].action->0@ is Do ==> text_view(r@[i].accel) == text_view(chord),
        r@[i].action is None || !(r@[i].action->0@ is Do) ==> r@[i].accel is None,
        r@[i].action is None ==> !r@[i].enabled,
{
    let all = row_models(r@);
    lemma_whole_menu(*keymap, has_selection, url, targets@, version@);
    assert(all[i] == r@[i]@);
    let top: int = if url is Some {
        3
    } else {
        0
    };
    let n = targets@.len() as int;
    if i < top {
        assert(all[i] == link_rows(url)[i]);
    } else if i < top + 3 {
        assert(all[top + (i - top)] == clipboard_rows(*keymap, has_selection)[i - top]);
    } else if i < top + 12 {
        lemma_fixed_row(*keymap, i - top - 3);
        assert(place(i - top - 3, n) == i - top - 3);
    } else if i < top + 12 + n {
        assert(all[top + 12 + (i - top - 12)] == move_rows(targets@)[i - top - 12]);
    } else if i < top + 30 + n {
        lemma_fixed_row(*keymap, i - top - 3 - n);
        assert(place(i - top - 3 - n, n) == i - top - 3);
    } else {
        assert(all[top + 30 + n + (i - top - 30 - n)] == footer_rows(version@)[i - top - 30 - n]);
    }
}

/// A link under the pointer adds three rows before the others and changes none of them.
pub proof fn a_link_only_adds_rows(
    keymap: &Keymap,
    has_selection: bool,
    url: &str,
    targets: &Vec<String>,
    version: &str,
    with: Vec<Row>,
    without: Vec<Row>,
    i: int,
)
    requires
        call_ensures(rows, (keymap, has_selection, Some(url), targets, version), with),
        call_ensures(rows, (keymap, has_selection, None, targets, version), without),
        0 <= i < without@.len(),
    ensures
        with@.len() == without@.len() + 3,
        with@[i + 3]@ == without@[i]@,
{
    let a = row_models(with@);
    let b = row_models(without@);
    assert(a =~= link_rows(Some(url)) + b) by {
        assert(link_rows(None::<&str>).len() == 0);
        assert(b =~= clipboard_rows(*keymap, has_selection) + rows_of_items(*keymap, targets@, menu_items())
            + footer_rows(version@));
    }
    assert(a[i + 3] == b[i]);
    assert(a[i + 3] == with@[i + 3]@);
}

/// What is selected decides whether Copy can be clicked, and nothing else.
#[verifier::rlimit(60)]
#[verifier::spinoff_prover]
pub proof fn a_selection_only_wakes_copy(
    keymap: &Keymap,
    url: Option<&str>,
    targets: &Vec<String>,
    version: &str,
    with: Vec<Row>,
    without: Vec<Row>,
    i: int,
)
    requires
        call_ensures(rows, (keymap, true, url, targets, version), with),
        call_ensures(rows, (keymap, false, url, targets, version), without),
        0 <= i < without@.len(),
    ensures
        with@.len() == without@.len(),
        with@[i].label@ == without@[i].label@,
        with@[i]@.action == without@[i]@.action,
        with@[i].enabled != without@[i].enabled <==> with@[i]@.action == Some(Meaning::Do(Action::Copy)),
{
    let a = row_models(with@);
    let b = row_models(without@);
    lemma_whole_menu(*keymap, true, url, targets@, version@);
    lemma_whole_menu(*keymap, false, url, targets@, version@);
    assert(a[i] == with@[i]@ && b[i] == without@[i]@);
    let top: int = if url is Some {
        3
    } else {
        0
    };
    let n = targets@.len() as int;
    if i < top {
        assert(a[i] == link_rows(url)[i] && b[i] == link_rows(url)[i]);
    } else if i < top + 3 {
        assert(a[top + (i - top)] == clipboard_rows(*keymap, true)[i - top]);
        assert(b[top + (i - top)] == clipboard_rows(*keymap, false)[i - top]);
    } else if i < top + 12 {
        lemma_fixed_row(*keymap, i - top - 3);
        assert(place(i - top - 3, n) == i - top - 3);
    } else if i < top + 12 + n {
        assert(a[top + 12 + (i - top - 12)] == move_rows(targets@)[i - top - 12]);
        assert(b[top + 12 + (i - top - 12)] == move_rows(targets@)[i - top - 12]);
    } else if i < top + 30 + n {
        lemma_fixed_row(*keymap, i - top - 3 - n);
        assert(place(i - top - 3 - n, n) == i - top - 3);
    } else {
        assert(a[top + 30 + n + (i - top - 30 - n)] == footer_rows(version@)[i - top - 30 - n]);
        assert(b[top + 30 + n + (i - top - 30 - n)] == footer_rows(version@)[i - top - 30 - n]);
    }
}

/// A row does what it says, and what it can say as an action it does as that action: the
/// rows about a link or a window have none.
pub proof fn a_row_does_what_it_says(row: RowAction, pick: MenuPick, action: Option<Action>)
    requires
        call_ensures(RowAction::into_pick, (row,), pick),
        call_ensures(RowAction::action, (&row,), action),
    ensures
        row is Copy ==> pick == MenuPick::Do(Action::Copy),
        row is Paste ==> pick == MenuPick::Do(Action::Paste),
        row is Do ==> pick == MenuPick::Do(row->Do_0),
        row is OpenUrl <==> pick is OpenUrl,
        row is CopyUrl <==> pick is CopyUrl,
        row is OpenUrl ==> pick->OpenUrl_0@ == row->OpenUrl_0@,
        row is CopyUrl ==> pick->CopyUrl_0@ == row->CopyUrl_0@,
        row is MoveToWindow ==> pick == MenuPick::MoveToWindow(row->MoveToWindow_0),
        pick is Do <==> action is Some,
        action is Some ==> pick == MenuPick::Do(action->0),
{
}

/// A key equivalent is one character, a letter in lower case, and holds the chord's own
/// modifiers; a symbol, which is typed with Shift in any case, is shown without it. A key
/// has a character unless it is a function key beyond `F12`.
pub proof fn a_chord_keeps_its_modifiers(chord: &Chord, r: Option<KeyEquivalent>)
    requires
        call_ensures(chord_key_equivalent, (chord,), r),
    ensures
        r is None <==> chord.key is Function && !(1 <= chord.key->Function_0 <= 12),
        r is Some ==> {
            &&& r->0.key@.len() == 1
            &&& r->0.command == chord.mods.logo
            &&& r->0.control == chord.mods.control
            &&& r->0.option == chord.mods.alt
            &&& r->0.shift ==> chord.mods.shift
            &&& !(chord.key is Char) ==> r->0.shift == chord.mods.shift
        },
        chord.key is Char && r is Some ==> {
            let c = chord.key->Char_0;
            let shown = r->0.key@[0];
            let letter = 'a' <= c <= 'z' || 'A' <= c <= 'Z';
            &&& 'A' <= c <= 'Z' ==> shown as u32 == c as u32 + 32
            &&& !('A' <= c <= 'Z') ==> shown == c
            &&& r->0.shift == (chord.mods.shift && (letter || '0' <= c <= '9'))
        },
{
}

/// The arrows, the page keys and the function keys each have a character of their own, and
/// the function keys' follow one another.
pub proof fn keys_are_told_apart(a: &Chord, b: &Chord, r: Option<KeyEquivalent>, s: Option<KeyEquivalent>)
    requires
        call_ensures(chord_key_equivalent, (a,), r),
        call_ensures(chord_key_equivalent, (b,), s),
        !(a.key is Char) && !(b.key is Char),
        r is Some && s is Some,
    ensures
        r->0.key@ == s->0.key@ <==> a.key == b.key,
        a.key is Function && b.key is Function ==> s->0.key@[0] as int - r->0.key@[0] as int
            == b.key->Function_0 - a.key->Function_0,
        a.key is Up && b.key is Down ==> s->0.key@[0] as int == r->0.key@[0] as int + 1,
        a.key is Up && b.key is Left ==> s->0.key@[0] as int == r->0.key@[0] as int + 2,
        a.key is Up && b.key is Right ==> s->0.key@[0] as int == r->0.key@[0] as int + 3,
        a.key is Up && b.key is Function && b.key->Function_0 == 1 ==> s->0.key@[0] as int == r->0.key@[0] as int
            + 4,
        a.key is PageUp && b.key is PageDown ==> s->0.key@[0] as int == r->0.key@[0] as int + 1,
        a.key is Up ==> r->0.key@[0] as int == 0xf700,
        a.key is PageUp ==> r->0.key@[0] as int == 0xf72c,
        a.key is Tab ==> r->0.key@[0] == '\t',
        a.key is Enter ==> r->0.key@[0] == '\r',
{
    assert(r->0.key@[0] == crate::menubar_model::key_character(a.key)->0);
    assert(s->0.key@[0] == crate::menubar_model::key_character(b.key)->0);
    if crate::menubar_model::key_character(a.key) == crate::menubar_model::key_character(b.key) {
        assert(r->0.key@ =~= s->0.key@);
    }
}

/// An action has the key equivalent of the chord that asks for it.
pub proof fn an_action_has_the_key_of_its_chord(
    keymap: &Keymap,
    action: Action,
    chord: Option<Chord>,
    key: Option<KeyEquivalent>,
    r: Option<KeyEquivalent>,
)
    requires
        call_ensures(Keymap::chord_for, (keymap, action), chord),
        chord is Some ==> call_ensures(chord_key_equivalent, (&chord->0,), key),
        call_ensures(key_equivalent, (keymap, action), r),
    ensures
        chord is None ==> r is None,
        chord is Some ==> (r is Some <==> key is Some),
        chord is Some && r is Some ==> r->0@ == key->0@,
{
}

/// The label of an action in the bar: that of the right-click menu, but for the settings,
/// and one of its own where the right-click menu has none.
pub open spec fn bar_label(action: Action) -> Option<Seq<char>> {
    match action {
        Action::Preferences => Some("Settings…"@),
        Action::CloseWindow => Some("Close Window"@),
        Action::ClipHistory => Some("Clipboard History…"@),
        Action::ZoomIn => Some("Zoom In"@),
        Action::ZoomOut => Some("Zoom Out"@),
        Action::ZoomReset => Some("Actual Size"@),
        Action::Fullscreen => Some("Enter Full Screen"@),
        Action::NextTab => Some("Next Tab"@),
        Action::PrevTab => Some("Previous Tab"@),
        Action::MoveTabLeft => Some("Move Tab Left"@),
        Action::MoveTabRight => Some("Move Tab Right"@),
        Action::Copy => Some("Copy"@),
        Action::Paste => Some("Paste"@),
        _ => match item_place(action) {
            Some(place) => Some(place.label@),
            None => None,
        },
    }
}

proof fn lemma_section_labels(keymap: Keymap, has_selection: bool, suspended: bool, section: int, i: int)
    requires
        0 <= section < sections().len(),
        0 <= i < sections()[section].len(),
    ensures
        ({
            let item = shown(keymap, has_selection, suspended, sections()[section][i]);
            item.action is Some ==> {
                &&& bar_label(item.action->0) == Some(item.label)
                &&& item.enabled == (!suspended && (item.action->0 == Action::Copy ==> has_selection))
                &&& item.key == crate::menubar_model::key_model(keymap, item.action->0)
            }
        }),
{
    every_entry_has_its_row();
    let entries = sections()[section];
    assert(crate::menubar_laws::showable(entries));
    let entry = entries[i];
    if section == 0 {
        assert(entries == app_entries());
    } else if section == 1 {
        assert(entries == shell_entries());
    } else if section == 2 {
        assert(entries == edit_entries());
    } else if section == 3 {
        assert(entries == view_entries());
    } else if section == 4 {
        assert(entries == window_entries());
    } else {
        assert(entries == help_entries());
    }
}

/// The bar's menus are Shell, Edit, View, Window and Help, and every row of theirs that runs
/// an action has that action's label and key. It can be clicked unless the keyboard is
/// elsewhere; Copy needs a selection besides.
pub proof fn a_row_of_the_bar_is_that_of_its_action(
    keymap: &Keymap,
    has_selection: bool,
    suspended: bool,
    r: BarModel,
    m: int,
    i: int,
    action: Action,
    key: Option<KeyEquivalent>,
)
    requires
        call_ensures(model, (keymap, has_selection, suspended), r),
        call_ensures(key_equivalent, (keymap, action), key),
    ensures
        r.app_menu@.len() == 1,
        r.app_menu@[0].action == Some(Action::Preferences),
        r.app_menu@[0].label@ == "Settings…"@,
        r.app_menu@[0].enabled == !suspended,
        action == Action::Preferences ==> (r.app_menu@[0].key is Some <==> key is Some),
        action == Action::Preferences && key is Some ==> r.app_menu@[0].key->0@ == key->0@,
        r.menus@.len() == 5,
        r.menus@[0].title == "Shell",
        r.menus@[1].title == "Edit",
        r.menus@[2].title == "View",
        r.menus@[3].title == "Window",
        r.menus@[4].title == "Help",
        0 <= m < 5 && 0 <= i < r.menus@[m].items@.len() && r.menus@[m].items@[i].action == Some(action) ==> {
            let item = r.menus@[m].items@[i];
            &&& bar_label(action) == Some(item.label@)
            &&& item.enabled == (!suspended && (action == Action::Copy ==> has_selection))
            &&& item.key is Some <==> key is Some
            &&& key is Some ==> item.key->0@ == key->0@
        },
{
    the_bar_shows_its_tables(*keymap, has_selection, suspended);
    every_entry_has_its_row();
    let apps = item_models(r.app_menu@);
    let menus = menu_models(r.menus@);
    assert(sections()[0] == app_entries());
    shown_row_for_row(*keymap, has_selection, suspended, app_entries());
    lemma_section_labels(*keymap, has_selection, suspended, 0, 0);
    assert(apps[0] == r.app_menu@[0]@);
    assert(apps[0] == shown(*keymap, has_selection, suspended, app_entries()[0]));
    assert(menus.len() == 5);
    assert(menus[0] == r.menus@[0]@);
    assert(menus[1] == r.menus@[1]@);
    assert(menus[2] == r.menus@[2]@);
    assert(menus[3] == r.menus@[3]@);
    assert(menus[4] == r.menus@[4]@);
    if 0 <= m < 5 && 0 <= i < r.menus@[m].items@.len() && r.menus@[m].items@[i].action == Some(action) {
        let entries = sections()[m + 1];
        assert(crate::menubar_laws::showable(entries));
        shown_row_for_row(*keymap, has_selection, suspended, entries);
        assert(menus[m].items == menu_of(*keymap, has_selection, suspended, entries));
        assert(menus[m].items[i] == r.menus@[m].items@[i]@);
        lemma_section_labels(*keymap, has_selection, suspended, m + 1, i);
    }
}

/// Clicking an item runs what it shows: items are told apart by their places, the
/// application menu's first and then menu by menu, and a divider or a place that is no
/// item's does nothing.
pub proof fn clicking_an_item_runs_its_action(
    bar: &BarModel,
    items: Vec<&BarItem>,
    bridge: &mut Bridge,
    tag: i64,
    taken: bool,
    live: bool,
)
    requires
        call_ensures(BarModel::items, (bar,), items),
        call_ensures(Bridge::new, (bar,), *old(bridge)),
        call_ensures(Bridge::clicked, (bridge, tag), taken),
        call_ensures(Bridge::is_enabled, (&*old(bridge), tag), live),
    ensures
        taken <==> 0 <= tag < items@.len() && items@[tag as int].action is Some,
        taken ==> final(bridge).pending@ == seq![items@[tag as int].action->0],
        !taken ==> final(bridge).pending@.len() == 0,
        live <==> 0 <= tag < items@.len() && items@[tag as int].enabled,
{
    if 0 <= tag < items@.len() {
        assert(items@[tag as int]@ == bar.all_items()[tag as int]);
    }
    assert(final(bridge).pending@ =~= if taken {
        seq![items@[tag as int].action->0]
    } else {
        Seq::empty()
    });
}

/// The items of a bar in their order: those of the application menu, then those of the
/// first menu, and those of each menu behind all of the menu before it.
pub proof fn items_come_menu_by_menu(
    bar: &BarModel,
    one_less: &BarModel,
    items: Vec<&BarItem>,
    fewer: Vec<&BarItem>,
    i: int,
)
    requires
        call_ensures(BarModel::items, (bar,), items),
        call_ensures(BarModel::items, (one_less,), fewer),
        bar.menus@.len() > 0,
        one_less.app_menu@ == bar.app_menu@,
        one_less.menus@ == bar.menus@.drop_last(),
    ensures
        items@.len() == fewer@.len() + bar.menus@.last().items@.len(),
        0 <= i < fewer@.len() ==> items@[i]@ == fewer@[i]@,
        0 <= i < bar.menus@.last().items@.len() ==> items@[fewer@.len() + i]@ == bar.menus@.last().items@[i]@,
        0 <= i < bar.app_menu@.len() ==> items@[i]@ == bar.app_menu@[i]@,
{
    let models = menu_models(bar.menus@);
    assert(models.drop_last() =~= menu_models(one_less.menus@));
    assert(models.last() == bar.menus@.last()@);
    if 0 <= i < fewer@.len() {
        assert(fewer@[i]@ == one_less.all_items()[i]);
        assert(items@[i]@ == bar.all_items()[i]);
    }
    if 0 <= i < bar.menus@.last().items@.len() {
        assert(items@[fewer@.len() + i]@ == bar.all_items()[fewer@.len() + i]);
        assert(item_models(bar.menus@.last().items@)[i] == bar.menus@.last().items@[i]@);
    }
    if 0 <= i < bar.app_menu@.len() {
        assert(items@[i]@ == bar.all_items()[i]);
        assert(item_models(bar.app_menu@)[i] == bar.app_menu@[i]@);
    }
}

/// What is clicked is collected once, in the order of the clicks.
pub proof fn clicks_are_collected_once(bridge: &mut Bridge, r: Vec<Action>)
    requires
        call_ensures(Bridge::take_pending, (bridge,), r),
    ensures
        r@ == old(bridge).pending@,
        final(bridge).pending@.len() == 0,
        final(bridge).actions == old(bridge).actions,
        final(bridge).enabled == old(bridge).enabled,
{
}

/// Only Command and `w` alone close a panel; only Command and `f` open the manual's search,
/// and Shift does not matter there.
pub proof fn panels_take_their_own_keys(mods: NativeMods, key: Option<&str>, closes: bool, finds: bool)
    requires
        call_ensures(closes_panel, (mods, key), closes),
        call_ensures(finds_in_manual, (mods, key), finds),
    ensures
        closes <==> mods == (NativeMods { command: true, option: false, control: false, shift: false })
            && key is Some && key->0@ =~= seq!['w'],
        finds <==> mods == (NativeMods { command: true, option: false, control: false, shift: mods.shift })
            && key is Some && key->0@ =~= seq!['f'],
{
    reveal_strlit("w");
    reveal_strlit("f");
    assert("w"@ =~= seq!['w']);
    assert("f"@ =~= seq!['f']);
}

/// Whether `p` is `text` at the place `at`.
pub open spec fn holds_at(p: Option<(Point, String)>, at: Point, text: Seq<char>) -> bool {
    match p {
        Some((q, t)) => q == at && t@ == text,
        None => false,
    }
}

/// What is dragged over the window and dropped is handed over once, where it was dropped
/// and as it was; afterwards nothing hovers.
pub proof fn a_drop_is_handed_over_once(
    inbox: &mut DropInbox,
    text: String,
    at: Point,
    took: bool,
)
    requires
        call_ensures(DropInbox::performed, (inbox, Some(text), Some(at)), took),
    ensures
        took,
        final(inbox).dropped is Some,
        holds_at(final(inbox).dropped, at, text@),
        final(inbox).hover is None,
        !final(inbox).accepted,
        final(inbox).changed,
{
}

/// What is handed over is what was dropped and what hovers, and it is handed over when
/// something has changed since the last time, and then no more.
pub proof fn news_are_told_once(inbox: &mut DropInbox, news: Option<DropNews>)
    requires
        call_ensures(DropInbox::take_change, (inbox,), news),
    ensures
        news is Some <==> old(inbox).changed,
        !final(inbox).changed,
        news is Some ==> final(inbox).dropped is None,
        news is Some ==> (news->0.dropped is Some <==> old(inbox).dropped is Some),
        forall|at: Point, text: Seq<char>|
            news is Some && holds_at(old(inbox).dropped, at, text) ==> holds_at(news->0.dropped, at, text),
        news is Some ==> (news->0.hover is Some <==> old(inbox).hover is Some),
        news is Some && old(inbox).hover is Some ==> holds_at(
            news->0.hover,
            old(inbox).hover->0,
            old(inbox).label@,
        ),
        final(inbox).hover == old(inbox).hover,
{
}

/// A drag hovers where it was last seen, under the label it came in with, until it leaves.
/// One that was not taken on when it came in is not followed.
pub proof fn a_drag_hovers_where_it_was_last_seen(
    inbox: &mut DropInbox,
    label: String,
    at: Option<Point>,
    r: bool,
)
    requires
        call_ensures(DropInbox::entered, (inbox, label, at), r),
    ensures
        r <==> at is Some,
        final(inbox).accepted,
        final(inbox).label@ == label@,
        at is Some ==> final(inbox).hover == at && final(inbox).changed,
        final(inbox).dropped == old(inbox).dropped,
{
}

/// A motion of a drag that was taken on moves it there; any other changes nothing.
pub proof fn a_drag_is_followed_once_taken_on(inbox: &mut DropInbox, at: Option<Point>, r: bool)
    requires
        call_ensures(DropInbox::moved, (inbox, at), r),
    ensures
        r <==> old(inbox).accepted && at is Some,
        r ==> final(inbox).hover == at && final(inbox).changed,
        !r ==> *final(inbox) == *old(inbox),
        final(inbox).label == old(inbox).label,
        final(inbox).accepted == old(inbox).accepted,
        final(inbox).dropped == old(inbox).dropped,
{
}

/// A drag that has left no longer hovers, and is not taken on; what was dropped before
/// stays to be handed over.
pub proof fn a_drag_that_leaves_is_gone(inbox: &mut DropInbox)
    requires
        call_ensures(DropInbox::exited, (inbox,), ()),
    ensures
        final(inbox).hover is None,
        !final(inbox).accepted,
        final(inbox).label@.len() == 0,
        final(inbox).changed,
        final(inbox).dropped == old(inbox).dropped,
{
}

} // verus!
