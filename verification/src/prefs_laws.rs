//! What holds of every request that a native control makes of the settings.
use vstd::prelude::*;
use vstd::arithmetic::div_mod::*;
use crate::prefs_model::{
    family_lands, live, material_names, may_step, next_settings, refused_before, visited, PrefRow,
    FONT_MAX, FONT_MIN, FONT_STEP, OPACITY_STEP, SCROLLBACK_MIN,
};
use crate::prefs_native::{
    apart, choice_dir, choice_walk, choices_of, driven, ladder_end, label_of, number_of, overshot,
    ring_walk, span_of, turns, unlocked, walk_stops, MAX_STEPS,
};
use crate::ring::{cycled, next_place, place, place_is_first, stepped};
use crate::settings::{
    clamped, opacity_floor, Catalog, SettingsModel, MAX_ARROW_ACCEL, MAX_OPACITY, MAX_SCROLLBACK,
};
use crate::text::views;

verus! {

/// Whether the rungs of a row's ladder are evenly spaced.
pub open spec fn even_ladder(row: PrefRow) -> bool {
    row == PrefRow::FontSize || row == PrefRow::Opacity || row == PrefRow::BlurRadius || row
        == PrefRow::ArrowAccelMax
}

/// The lowest rung of an even ladder.
pub open spec fn lowest(m: SettingsModel, row: PrefRow, catalog: Catalog) -> int {
    match row {
        PrefRow::FontSize => FONT_MIN as int,
        PrefRow::Opacity => opacity_floor(m.background_blur),
        PrefRow::BlurRadius => catalog.min_blur_radius as int,
        _ => 1,
    }
}

/// The highest rung of an even ladder.
pub open spec fn highest(row: PrefRow, catalog: Catalog) -> int {
    match row {
        PrefRow::FontSize => FONT_MAX as int,
        PrefRow::Opacity => MAX_OPACITY as int,
        PrefRow::BlurRadius => catalog.max_blur_radius as int,
        _ => MAX_ARROW_ACCEL as int,
    }
}

/// The distance between two rungs of an even ladder.
pub open spec fn rung(row: PrefRow) -> int {
    match row {
        PrefRow::FontSize => FONT_STEP as int,
        PrefRow::Opacity => OPACITY_STEP as int,
        _ => 1,
    }
}

proof fn lemma_one_rung(m: SettingsModel, row: PrefRow, up: bool, terms: Seq<Seq<char>>, catalog: Catalog)
    requires
        even_ladder(row),
        live(m, row, catalog),
        row == PrefRow::BlurRadius ==> catalog.min_blur_radius <= catalog.max_blur_radius,
    ensures
        ({
            let next = next_settings(m, row, if up { 1 } else { -1 }, terms, catalog);
            &&& number_of(next, row) == Some(
                clamped(
                    number_of(m, row)->0 + (if up {
                        rung(row)
                    } else {
                        -rung(row)
                    }),
                    lowest(m, row, catalog),
                    highest(row, catalog),
                ),
            )
            &&& live(next, row, catalog)
            &&& lowest(next, row, catalog) == lowest(m, row, catalog)
        }),
{
    reveal(next_settings);
}

/// The number at the end of an even ladder, walked from `x`.
spec fn ladder_number(x: int, up: bool, lo: int, hi: int, st: int, steps: nat) -> int
    decreases steps,
{
    if steps == 0 {
        x
    } else {
        let y = clamped(
            if up {
                x + st
            } else {
                x - st
            },
            lo,
            hi,
        );
        if y == x {
            x
        } else {
            ladder_number(y, up, lo, hi, st, (steps - 1) as nat)
        }
    }
}

proof fn lemma_ladder_number(m: SettingsModel, row: PrefRow, up: bool, catalog: Catalog, steps: nat)
    requires
        even_ladder(row),
        live(m, row, catalog),
        row == PrefRow::BlurRadius ==> catalog.min_blur_radius <= catalog.max_blur_radius,
    ensures
        number_of(
            ladder_end(
                m,
                row,
                if up {
                    1
                } else {
                    -1
                },
                catalog,
                steps,
            ),
            row,
        ) == Some(
            ladder_number(
                number_of(m, row)->0,
                up,
                lowest(m, row, catalog),
                highest(row, catalog),
                rung(row),
                steps,
            ),
        ),
    decreases steps,
{
    if steps > 0 {
        lemma_one_rung(m, row, up, Seq::empty(), catalog);
        let next = next_settings(
            m,
            row,
            if up {
                1
            } else {
                -1
            },
            Seq::empty(),
            catalog,
        );
        lemma_ladder_number(next, row, up, catalog, (steps - 1) as nat);
    }
}

proof fn lemma_ladder_ends(x: int, up: bool, lo: int, hi: int, st: int, steps: nat)
    requires
        lo <= hi,
        st >= 1,
        steps >= 1,
        lo <= x <= hi ==> (steps - 1) * st >= (if up {
            hi - x
        } else {
            x - lo
        }),
        !(lo <= x <= hi) ==> steps >= 2 && (steps - 2) * st >= hi - lo,
    ensures
        ladder_number(x, up, lo, hi, st, steps) == (if up {
            hi
        } else {
            lo
        }),
    decreases steps,
{
    let y = clamped(
        if up {
            x + st
        } else {
            x - st
        },
        lo,
        hi,
    );
    assert((steps - 1) * st == (steps - 2) * st + st) by (nonlinear_arith);
    if y != x {
        if steps == 1 {
            assert((steps - 1) * st == 0) by (nonlinear_arith)
                requires
                    steps == 1,
            ;
        } else {
            assert((steps - 2) * st >= 0) by (nonlinear_arith)
                requires
                    steps >= 2,
                    st >= 1,
            ;
            lemma_ladder_ends(y, up, lo, hi, st, (steps - 1) as nat);
        }
    }
}

/// A row's travel is the model's own: all of its ladder, whatever the settings are now,
/// and even while the row is greyed. The opacity's floor moves with the blur.
pub proof fn the_travel_is_the_whole_ladder(m: SettingsModel, row: PrefRow, catalog: Catalog)
    requires
        even_ladder(row),
        live(unlocked(m, row, catalog), row, catalog),
        row == PrefRow::BlurRadius ==> catalog.min_blur_radius <= catalog.max_blur_radius
            <= catalog.min_blur_radius + 4094,
    ensures
        span_of(m, row, catalog) == Some((lowest(m, row, catalog), highest(row, catalog))),
{
    let open = unlocked(m, row, catalog);
    assert((MAX_STEPS - 2) * rung(row) == 4094 * rung(row));
    assert((MAX_STEPS - 1) * rung(row) == 4095 * rung(row));
    let lo = lowest(open, row, catalog);
    let hi = highest(row, catalog);
    let x = number_of(open, row)->0;
    lemma_ladder_number(open, row, false, catalog, MAX_STEPS as nat);
    lemma_ladder_number(open, row, true, catalog, MAX_STEPS as nat);
    lemma_ladder_ends(x, false, lo, hi, rung(row), MAX_STEPS as nat);
    lemma_ladder_ends(x, true, lo, hi, rung(row), MAX_STEPS as nat);
}

/// The number that driving an even ladder from `x` towards `target` ends on.
spec fn driven_number(x: int, target: int, lo: int, hi: int, st: int, steps: nat) -> int
    decreases steps,
{
    if steps == 0 || x == target {
        x
    } else {
        let up = target > x;
        let y = clamped(
            if up {
                x + st
            } else {
                x - st
            },
            lo,
            hi,
        );
        let over = if up {
            y > target
        } else {
            y < target
        };
        if y == x || (over && apart(y, target) >= apart(x, target)) {
            x
        } else if over {
            y
        } else {
            driven_number(y, target, lo, hi, st, (steps - 1) as nat)
        }
    }
}

proof fn lemma_driven_number(
    m: SettingsModel,
    row: PrefRow,
    target: int,
    terms: Seq<Seq<char>>,
    catalog: Catalog,
    steps: nat,
)
    requires
        even_ladder(row),
        live(m, row, catalog),
        row == PrefRow::BlurRadius ==> catalog.min_blur_radius <= catalog.max_blur_radius,
    ensures
        number_of(driven(m, row, target, terms, catalog, steps), row) == Some(
            driven_number(
                number_of(m, row)->0,
                target,
                lowest(m, row, catalog),
                highest(row, catalog),
                rung(row),
                steps,
            ),
        ),
    decreases steps,
{
    let x = number_of(m, row)->0;
    if steps > 0 && x != target {
        let up = target > x;
        lemma_one_rung(m, row, up, terms, catalog);
        let next = next_settings(
            m,
            row,
            if up {
                1
            } else {
                -1
            },
            terms,
            catalog,
        );
        lemma_driven_number(next, row, target, terms, catalog, (steps - 1) as nat);
    }
}

proof fn lemma_driven_near(x: int, target: int, lo: int, hi: int, st: int, steps: nat)
    requires
        lo <= x <= hi,
        st >= 1,
        steps >= 1,
        (steps - 1) * st >= apart(x, clamped(target, lo, hi)),
    ensures
        ({
            let landed = driven_number(x, target, lo, hi, st, steps);
            let nearest = clamped(target, lo, hi);
            &&& lo <= landed <= hi
            &&& 2 * apart(landed, nearest) <= st
            &&& target != nearest ==> landed == nearest
        }),
    decreases steps,
{
    if x != target {
        let up = target > x;
        let y = clamped(
            if up {
                x + st
            } else {
                x - st
            },
            lo,
            hi,
        );
        let over = if up {
            y > target
        } else {
            y < target
        };
        assert((steps - 1) * st == (steps - 2) * st + st) by (nonlinear_arith);
        if y != x && !over {
            if steps >= 2 {
                assert((steps - 2) * st >= 0) by (nonlinear_arith)
                    requires
                        steps >= 2,
                        st >= 1,
                ;
                lemma_driven_near(y, target, lo, hi, st, (steps - 1) as nat);
            } else {
                assert((steps - 1) * st == 0) by (nonlinear_arith)
                    requires
                        steps == 1,
                ;
            }
        }
    }
}

/// A slider or stepper with an even ladder lands within half a rung of what was asked
/// for; asked for more than the ladder has, it lands on the end of it.
pub proof fn a_request_lands_on_the_nearest_rung(
    m: SettingsModel,
    row: PrefRow,
    target: int,
    terms: Seq<Seq<char>>,
    catalog: Catalog,
)
    requires
        even_ladder(row),
        live(m, row, catalog),
        lowest(m, row, catalog) <= number_of(m, row)->0 <= highest(row, catalog),
        highest(row, catalog) - lowest(m, row, catalog) <= 4095 * rung(row),
    ensures
        ({
            let landed = number_of(driven(m, row, target, terms, catalog, MAX_STEPS as nat), row)->0;
            let nearest = clamped(target, lowest(m, row, catalog), highest(row, catalog));
            &&& lowest(m, row, catalog) <= landed <= highest(row, catalog)
            &&& 2 * apart(landed, nearest) <= rung(row)
            &&& target != nearest ==> landed == nearest
        }),
{
    let lo = lowest(m, row, catalog);
    let hi = highest(row, catalog);
    lemma_driven_number(m, row, target, terms, catalog, MAX_STEPS as nat);
    assert((MAX_STEPS - 1) * rung(row) == 4095 * rung(row));
    lemma_driven_near(number_of(m, row)->0, target, lo, hi, rung(row), MAX_STEPS as nat);
}

/// How often a scrollback can be halved before it is below twice the least.
spec fn halvings(x: int) -> nat
    decreases x,
{
    if x < 2 * SCROLLBACK_MIN {
        0
    } else {
        1 + halvings(x / 2)
    }
}

proof fn lemma_halvings(x: int)
    requires
        SCROLLBACK_MIN <= x <= MAX_SCROLLBACK,
    ensures
        halvings(x) <= 12,
        halvings(2 * x) == halvings(x) + 1,
        x >= 2 * SCROLLBACK_MIN ==> halvings(x) == 1 + halvings(x / 2),
{
    reveal_with_fuel(halvings, 14);
    assert((2 * x) / 2 == x);
}

/// The number that a step leads to on the ladder of the scrollback.
spec fn scrollback_step(x: int, up: bool) -> int {
    clamped(
        if up {
            x * 2
        } else {
            x / 2
        },
        SCROLLBACK_MIN as int,
        MAX_SCROLLBACK as int,
    )
}

proof fn lemma_scrollback_driven(
    m: SettingsModel,
    target: int,
    terms: Seq<Seq<char>>,
    catalog: Catalog,
    steps: nat,
)
    requires
        SCROLLBACK_MIN <= m.scrollback <= MAX_SCROLLBACK,
        steps >= 1,
        m.scrollback < target && m.scrollback < MAX_SCROLLBACK ==> steps + halvings(m.scrollback) >= 14,
        m.scrollback > target && m.scrollback > SCROLLBACK_MIN ==> steps >= halvings(m.scrollback) + 2,
    ensures
        ({
            let landed = driven(m, PrefRow::Scrollback, target, terms, catalog, steps).scrollback;
            &&& SCROLLBACK_MIN <= landed <= MAX_SCROLLBACK
            &&& apart(landed, target) <= apart(scrollback_step(landed, true), target)
            &&& apart(landed, target) <= apart(scrollback_step(landed, false), target)
        }),
    decreases steps,
{
    reveal(next_settings);
    let x = m.scrollback;
    lemma_halvings(x);
    if x != target {
        let up = target > x;
        let next = next_settings(
            m,
            PrefRow::Scrollback,
            if up {
                1
            } else {
                -1
            },
            terms,
            catalog,
        );
        let y = next.scrollback;
        assert(y == scrollback_step(x, up));
        let over = if up {
            y > target
        } else {
            y < target
        };
        if y != x && !over {
            lemma_halvings(y);
            lemma_scrollback_driven(next, target, terms, catalog, (steps - 1) as nat);
        }
    }
}

/// The scrollback's ladder doubles from rung to rung; there, too, a request lands on the
/// nearest: from where it lands, no step either way comes nearer to what was asked for.
pub proof fn a_scrollback_request_lands_on_the_nearest_rung(
    m: SettingsModel,
    target: int,
    terms: Seq<Seq<char>>,
    catalog: Catalog,
)
    requires
        SCROLLBACK_MIN <= m.scrollback <= MAX_SCROLLBACK,
    ensures
        ({
            let end = driven(m, PrefRow::Scrollback, target, terms, catalog, MAX_STEPS as nat);
            let more = next_settings(end, PrefRow::Scrollback, 1, terms, catalog);
            let less = next_settings(end, PrefRow::Scrollback, -1, terms, catalog);
            &&& SCROLLBACK_MIN <= end.scrollback <= MAX_SCROLLBACK
            &&& apart(end.scrollback, target) <= apart(more.scrollback, target)
            &&& apart(end.scrollback, target) <= apart(less.scrollback, target)
        }),
{
    reveal(next_settings);
    lemma_halvings(m.scrollback);
    lemma_scrollback_driven(m, target, terms, catalog, MAX_STEPS as nat);
}

/// A row that is not live refuses every request.
pub proof fn a_greyed_row_refuses_a_request(
    m: SettingsModel,
    row: PrefRow,
    target: int,
    terms: Seq<Seq<char>>,
    catalog: Catalog,
    steps: nat,
)
    requires
        !live(m, row, catalog),
    ensures
        driven(m, row, target, terms, catalog, steps) == m,
        next_settings(m, row, 1, terms, catalog) == m,
        next_settings(m, row, -1, terms, catalog) == m,
{
    reveal(next_settings);
    reveal_with_fuel(driven, 2);
}

proof fn lemma_turns(from: int, x: int, n: int)
    requires
        0 <= from < n,
        0 <= x < n,
    ensures
        turns(from, x, n) == if x >= from {
            x - from
        } else {
            x - from + n
        },
{
    if x >= from {
        lemma_small_mod((x - from) as nat, n as nat);
    } else {
        lemma_mod_add_multiples_vanish(x - from, n);
        lemma_small_mod((x - from + n) as nat, n as nat);
    }
}

proof fn lemma_stepped(x: int, n: int)
    requires
        0 <= x < n,
    ensures
        stepped(x, 1, n) == if x + 1 < n {
            x + 1
        } else {
            0
        },
        stepped(x, -1, n) == if x > 0 {
            x - 1
        } else {
            n - 1
        },
{
    if x + 1 < n {
        lemma_small_mod((x + 1) as nat, n as nat);
    } else {
        lemma_mod_self_0(n);
    }
    if x > 0 {
        lemma_small_mod((x - 1) as nat, n as nat);
    } else {
        lemma_mod_add_multiples_vanish(-1, n);
        lemma_small_mod((n - 1) as nat, n as nat);
    }
}

proof fn lemma_place_of(list: Seq<Seq<char>>, i: int)
    requires
        list.no_duplicates(),
        0 <= i < list.len(),
    ensures
        place(list, list[i]) == Some(i),
{
    place_is_first(list, list[i]);
}

proof fn lemma_one_on(list: Seq<Seq<char>>, i: int, up: bool)
    requires
        list.no_duplicates(),
        0 <= i < list.len(),
    ensures
        ({
            let n = list.len() as int;
            let j = if up {
                if i + 1 < n {
                    i + 1
                } else {
                    0
                }
            } else {
                if i > 0 {
                    i - 1
                } else {
                    n - 1
                }
            };
            cycled(
                list,
                list[i],
                if up {
                    1
                } else {
                    -1
                },
            ) == list[j]
        }),
{
    lemma_place_of(list, i);
    lemma_stepped(i, list.len() as int);
}

/// The names met by a walk that takes one step of the ring at a time: how far the
/// `i`-th is from the target.
proof fn lemma_walk_nears(list: Seq<Seq<char>>, names: Seq<Seq<char>>, target: Seq<char>, up: bool, i: int)
    requires
        list.no_duplicates(),
        names.len() > 0,
        list.contains(names[0]),
        list.contains(target),
        forall|j: int|
            #![trigger names[j]]
            0 < j < names.len() ==> names[j] == cycled(
                list,
                names[j - 1],
                if up {
                    1
                } else {
                    -1
                },
            ),
        0 <= i < names.len(),
        i <= if up {
            turns(place(list, names[0])->0, place(list, target)->0, list.len() as int)
        } else {
            turns(place(list, target)->0, place(list, names[0])->0, list.len() as int)
        },
    ensures
        list.contains(names[i]),
        up ==> turns(place(list, names[i])->0, place(list, target)->0, list.len() as int) == turns(
            place(list, names[0])->0,
            place(list, target)->0,
            list.len() as int,
        ) - i,
        !up ==> turns(place(list, target)->0, place(list, names[i])->0, list.len() as int) == turns(
            place(list, target)->0,
            place(list, names[0])->0,
            list.len() as int,
        ) - i,
    decreases i,
{
    if i > 0 {
        lemma_walk_nears(list, names, target, up, i - 1);
        let n = list.len() as int;
        place_is_first(list, names[i - 1]);
        place_is_first(list, target);
        let x = place(list, names[i - 1])->0;
        let q = place(list, target)->0;
        lemma_one_on(list, x, up);
        assert(names[i] == cycled(list, names[i - 1], if up { 1 } else { -1 }));
        let y = if up {
            if x + 1 < n {
                x + 1
            } else {
                0
            }
        } else {
            if x > 0 {
                x - 1
            } else {
                n - 1
            }
        };
        assert(names[i] == list[y]);
        lemma_place_of(list, y);
        lemma_turns(x, q, n);
        lemma_turns(y, q, n);
        lemma_turns(q, x, n);
        lemma_turns(q, y, n);
    }
}

/// A walk of one step at a time round a ring that names each thing once, the shorter
/// way, stops at its target.
proof fn lemma_walk_arrives(list: Seq<Seq<char>>, names: Seq<Seq<char>>, target: Seq<char>)
    requires
        list.no_duplicates(),
        names.len() > 0,
        list.contains(names[0]),
        list.contains(target),
        names[0] != target,
        forall|j: int|
            #![trigger names[j]]
            0 < j < names.len() ==> names[j] == cycled(
                list,
                names[j - 1],
                choice_dir(list, names[0], target),
            ),
        forall|j: int|
            #![trigger names[j]]
            0 < j < names.len() - 1 ==> !walk_stops(
                list,
                target,
                choice_dir(list, names[0], target),
                names[j - 1],
                names[j],
            ),
        names.len() - 1 <= list.len(),
        names.len() - 1 == list.len() || (names.len() > 1 && walk_stops(
            list,
            target,
            choice_dir(list, names[0], target),
            names[names.len() - 2],
            names[names.len() - 1],
        )),
    ensures
        names.last() == target,
{
    let n = list.len() as int;
    place_is_first(list, names[0]);
    place_is_first(list, target);
    let p = place(list, names[0])->0;
    let q = place(list, target)->0;
    let dir = choice_dir(list, names[0], target);
    let up = dir > 0;
    lemma_turns(p, q, n);
    lemma_turns(q, p, n);
    let away = if up {
        turns(p, q, n)
    } else {
        turns(q, p, n)
    };
    assert(0 < away <= n);
    let last = names.len() - 1;
    if last >= away {
        lemma_walk_nears(list, names, target, up, away);
        place_is_first(list, names[away]);
        let z = place(list, names[away])->0;
        lemma_turns(z, q, n);
        lemma_turns(q, z, n);
        assert(z == q);
        assert(names[away] == target);
        assert(last == away);
    } else {
        if last > 0 {
            lemma_walk_nears(list, names, target, up, last - 1);
            lemma_walk_nears(list, names, target, up, last);
            place_is_first(list, names[last - 1]);
            place_is_first(list, names[last]);
            let b = place(list, names[last - 1])->0;
            let a = place(list, names[last])->0;
            lemma_turns(b, q, n);
            lemma_turns(q, b, n);
            lemma_turns(a, q, n);
            lemma_turns(q, a, n);
            lemma_turns(b, a, n);
            lemma_turns(a, b, n);
            assert(!walk_stops(list, target, dir, names[last - 1], names[last]));
        }
        assert(false);
    }
}

/// Where a walk is after `k` more steps from the one that follows the place `p`.
proof fn lemma_visited(p: int, up: bool, k: nat, n: int)
    requires
        0 <= p < n,
        k < n,
    ensures
        ({
            let dir = if up { 1int } else { -1 };
            let at = visited(stepped(p, dir, n), dir, k, n);
            &&& 0 <= at < n
            &&& up ==> at == if p + k + 1 < n { p + k + 1 } else { p + k + 1 - n }
            &&& !up ==> at == if p >= k + 1 { p - k - 1 } else { p - k - 1 + n }
        }),
    decreases k,
{
    if k == 0 {
        lemma_stepped(p, n);
    } else {
        lemma_visited(p, up, (k - 1) as nat, n);
        let dir = if up { 1int } else { -1 };
        lemma_stepped(visited(stepped(p, dir, n), dir, (k - 1) as nat, n), n);
    }
}

/// How far a place lies from another, the way a walk goes.
spec fn ahead(p: int, q: int, up: bool, n: int) -> int {
    if up {
        turns(p, q, n)
    } else {
        turns(q, p, n)
    }
}

/// A step towards a family that is never refused comes nearer to it, and not past it.
proof fn lemma_nearer<F: FnMut(&String) -> bool>(
    families: Seq<String>,
    name: Seq<char>,
    up: bool,
    usable: F,
    landed: Seq<char>,
    target: Seq<char>,
)
    requires
        views(families).no_duplicates(),
        views(families).contains(name),
        views(families).contains(target),
        name != target,
        forall|f: &String| f@ == target ==> !call_ensures(usable, (f,), false),
        family_lands(families, name, if up { 1 } else { -1 }, usable, landed),
    ensures
        views(families).contains(landed),
        ({
            let list = views(families);
            let n = list.len() as int;
            let p = place(list, name)->0;
            let a = place(list, landed)->0;
            let q = place(list, target)->0;
            &&& 0 <= ahead(a, q, up, n) < ahead(p, q, up, n) < n
            &&& a != p
            &&& a == q <==> ahead(a, q, up, n) == 0
            &&& !overshot(p, a, q, if up { 1 } else { -1 }, n)
        }),
{
    let list = views(families);
    let n = families.len() as int;
    let dir = if up { 1int } else { -1 };
    place_is_first(list, name);
    place_is_first(list, target);
    let p = place(list, name)->0;
    let q = place(list, target)->0;
    let start = next_place(list, name, dir);
    lemma_turns(p, q, n);
    lemma_turns(q, p, n);
    let d = ahead(p, q, up, n);
    assert(0 < d < n);
    lemma_visited(p, up, (d - 1) as nat, n);
    assert(visited(start, dir, (d - 1) as nat, n) == q);
    assert(families[q]@ == target);
    assert(!call_ensures(usable, (&families[q],), false));
    assert forall|k: nat| #[trigger] refused_before(families, start, dir, k, usable) implies k < d by {
        if k >= d {
            let j = (d - 1) as nat;
            assert(call_ensures(usable, (&families[visited(start, dir, j, n)],), false));
        }
    }
    let k = choose|k: nat|
        k < n && #[trigger] refused_before(families, start, dir, k, usable) && call_ensures(
            usable,
            (&families[visited(start, dir, k, n)],),
            true,
        ) && landed == families[visited(start, dir, k, n)]@;
    assert(k < d);
    lemma_visited(p, up, k, n);
    let a = visited(start, dir, k, n);
    assert(list[a] == landed);
    lemma_place_of(list, a);
    lemma_turns(a, q, n);
    lemma_turns(q, a, n);
    lemma_turns(p, a, n);
    lemma_turns(a, p, n);
}

/// How far a walk towards a family that is never refused still has to go.
proof fn lemma_walk_comes_nearer<F: FnMut(&String) -> bool>(
    states: Seq<SettingsModel>,
    target: Seq<char>,
    families: Seq<String>,
    terms: Seq<String>,
    catalog: Catalog,
    usable: F,
    up: bool,
    i: int,
)
    requires
        forall|f: &String| f@ == target ==> !call_ensures(usable, (f,), false),
        views(families).no_duplicates(),
        choice_walk(
            states,
            PrefRow::FontFamily,
            target,
            views(families),
            families,
            terms,
            catalog,
            usable,
        ),
        up == (choice_dir(views(families), states[0].font_family, target) > 0),
        views(families).contains(states[0].font_family),
        views(families).contains(target),
        states[0].font_family != target,
        0 <= i < states.len(),
    ensures
        ({
            let list = views(families);
            let n = list.len() as int;
            let q = place(list, target)->0;
            &&& list.contains(states[i].font_family)
            &&& ahead(place(list, states[i].font_family)->0, q, up, n) < n - i
            &&& states[i].font_family != target ==> ahead(
                place(list, states[i].font_family)->0,
                q,
                up,
                n,
            ) > 0
            &&& states[i].font_family == target ==> i == states.len() - 1
            &&& i == states.len() - 1 && i > 0 && states[i].font_family != target ==> !walk_stops(
                list,
                target,
                if up { 1 } else { -1 },
                states[i - 1].font_family,
                states[i].font_family,
            )
        }),
    decreases i,
{
    let list = views(families);
    let n = list.len() as int;
    let dir = choice_dir(list, states[0].font_family, target);
    place_is_first(list, target);
    let q = place(list, target)->0;
    if i == 0 {
        place_is_first(list, states[0].font_family);
        let p = place(list, states[0].font_family)->0;
        lemma_turns(p, q, n);
        lemma_turns(q, p, n);
    } else {
        lemma_walk_comes_nearer(states, target, families, terms, catalog, usable, up, i - 1);
        let before = states[i - 1].font_family;
        let after = states[i].font_family;
        assert(before != target);
        assert(states[i] == states[i]);
        assert(family_lands(families, before, dir, usable, after));
        lemma_nearer(families, before, up, usable, after, target);
        place_is_first(list, before);
        place_is_first(list, after);
        assert(walk_stops(list, target, dir, before, after) <==> after == target);
        if after == target && i < states.len() - 1 {
            assert(!walk_stops(list, target, dir, before, after));
        }
    }
}

/// Picking a font family that can be drawn reaches it, whatever becomes of the others: from
/// an installed family, in a list that names each once.
pub proof fn picking_a_family_reaches_it<F: FnMut(&String) -> bool>(
    states: Seq<SettingsModel>,
    target: Seq<char>,
    families: Seq<String>,
    terms: Seq<String>,
    catalog: Catalog,
    usable: F,
)
    requires
        forall|f: &String| f@ == target ==> !call_ensures(usable, (f,), false),
        views(families).no_duplicates(),
        families.len() <= MAX_STEPS,
        choice_walk(
            states,
            PrefRow::FontFamily,
            target,
            views(families),
            families,
            terms,
            catalog,
            usable,
        ),
        views(families).contains(states[0].font_family),
        views(families).contains(target),
        states[0].font_family != target,
    ensures
        states.last().font_family == target,
{
    let list = views(families);
    let up = choice_dir(list, states[0].font_family, target) > 0;
    let last = states.len() - 1;
    lemma_walk_comes_nearer(states, target, families, terms, catalog, usable, up, last);
    place_is_first(list, target);
    if states[last].font_family != target {
        place_is_first(list, states[last].font_family);
    }
}

/// Whether `usable` accepted a family of this name.
pub open spec fn accepted<F: FnMut(&String) -> bool>(usable: F, name: Seq<char>) -> bool {
    exists|f: &String| #[trigger] call_ensures(usable, (f,), true) && f@ == name
}

/// A step over the font families never lands on one that cannot be drawn: it stays, or
/// lands on one that the oracle accepted.
pub proof fn a_step_lands_on_a_family_that_can_be_drawn<F: FnMut(&String) -> bool>(
    m: SettingsModel,
    dir: int,
    families: Seq<String>,
    terms: Seq<String>,
    catalog: Catalog,
    usable: F,
    after: SettingsModel,
)
    requires
        may_step(m, PrefRow::FontFamily, dir, families, terms, catalog, usable, after),
    ensures
        after.font_family == m.font_family || accepted(usable, after.font_family),
{
    let n = families.len() as int;
    let start = next_place(views(families), m.font_family, dir);
    if n > 0 && after.font_family != m.font_family {
        let k = choose|k: nat|
            k < n && #[trigger] refused_before(families, start, dir, k, usable) && call_ensures(
                usable,
                (&families[visited(start, dir, k, n)],),
                true,
            ) && after.font_family == families[visited(start, dir, k, n)]@;
        let f = &families[visited(start, dir, k, n)];
        assert(call_ensures(usable, (f,), true) && f@ == after.font_family);
    }
}

proof fn lemma_walk_accepted<F: FnMut(&String) -> bool>(
    states: Seq<SettingsModel>,
    target: Seq<char>,
    list: Seq<Seq<char>>,
    families: Seq<String>,
    terms: Seq<String>,
    catalog: Catalog,
    usable: F,
    i: int,
)
    requires
        choice_walk(states, PrefRow::FontFamily, target, list, families, terms, catalog, usable),
        0 <= i < states.len(),
    ensures
        states[i].font_family == states[0].font_family || accepted(usable, states[i].font_family),
    decreases i,
{
    if i > 0 {
        lemma_walk_accepted(states, target, list, families, terms, catalog, usable, i - 1);
        let dir = choice_dir(list, label_of(states[0], PrefRow::FontFamily, catalog)->0, target);
        assert(states[i] == states[i]);
        a_step_lands_on_a_family_that_can_be_drawn(
            states[i - 1],
            dir,
            families,
            terms,
            catalog,
            usable,
            states[i],
        );
    }
}

/// Picking a font family ends where it was, or on a family that can be drawn.
pub proof fn a_pick_lands_on_a_family_that_can_be_drawn<F: FnMut(&String) -> bool>(
    states: Seq<SettingsModel>,
    target: Seq<char>,
    list: Seq<Seq<char>>,
    families: Seq<String>,
    terms: Seq<String>,
    catalog: Catalog,
    usable: F,
)
    requires
        choice_walk(states, PrefRow::FontFamily, target, list, families, terms, catalog, usable),
    ensures
        states.last().font_family == states[0].font_family || accepted(
            usable,
            states.last().font_family,
        ),
{
    lemma_walk_accepted(
        states,
        target,
        list,
        families,
        terms,
        catalog,
        usable,
        states.len() - 1,
    );
}

/// Whether a row walks a ring whose names are all there is to it.
pub open spec fn named_ring(row: PrefRow) -> bool {
    row == PrefRow::Chrome || row == PrefRow::GlassMaterial || row == PrefRow::Term
}

/// The ring such a row walks.
pub open spec fn ring_of(row: PrefRow, terms: Seq<Seq<char>>, catalog: Catalog) -> Seq<Seq<char>> {
    match row {
        PrefRow::Chrome => views(catalog.themes@),
        PrefRow::GlassMaterial => material_names(catalog.materials@),
        _ => terms,
    }
}

/// `ring`, read from its place `p` on, once round.
pub open spec fn rotated(ring: Seq<Seq<char>>, p: int) -> Seq<Seq<char>> {
    ring.skip(p) + ring.take(p)
}

proof fn lemma_ring_step(m: SettingsModel, row: PrefRow, dir: int, terms: Seq<Seq<char>>, catalog: Catalog)
    requires
        named_ring(row),
        live(m, row, catalog),
    ensures
        ({
            let next = next_settings(m, row, dir, terms, catalog);
            &&& label_of(next, row, catalog)->0 == cycled(
                ring_of(row, terms, catalog),
                label_of(m, row, catalog)->0,
                dir,
            )
            &&& live(next, row, catalog)
        }),
{
    reveal(next_settings);
}

proof fn lemma_rotated(ring: Seq<Seq<char>>, p: int)
    requires
        ring.no_duplicates(),
        0 <= p < ring.len(),
    ensures
        rotated(ring, p).len() == ring.len(),
        rotated(ring, p).no_duplicates(),
        forall|j: int|
            #![trigger rotated(ring, p)[j]]
            0 <= j < ring.len() ==> rotated(ring, p)[j] == ring[if p + j < ring.len() {
                p + j
            } else {
                p + j - ring.len()
            }],
        forall|name: Seq<char>| #[trigger] rotated(ring, p).contains(name) <==> ring.contains(name),
{
    let r = rotated(ring, p);
    assert forall|name: Seq<char>| #[trigger] r.contains(name) <==> ring.contains(name) by {
        if ring.contains(name) {
            let i = choose|i: int| 0 <= i < ring.len() && ring[i] == name;
            if i >= p {
                assert(r[i - p] == name);
            } else {
                assert(r[ring.len() - p + i] == name);
            }
        }
        if r.contains(name) {
            let j = choose|j: int| 0 <= j < r.len() && r[j] == name;
            assert(ring[if p + j < ring.len() {
                p + j
            } else {
                p + j - ring.len()
            }] == name);
        }
    }
}

proof fn lemma_ring_walk(
    m: SettingsModel,
    row: PrefRow,
    terms: Seq<Seq<char>>,
    catalog: Catalog,
    p: int,
    k: int,
    steps: nat,
)
    requires
        named_ring(row),
        live(m, row, catalog),
        ring_of(row, terms, catalog).no_duplicates(),
        0 <= p < ring_of(row, terms, catalog).len(),
        1 <= k <= ring_of(row, terms, catalog).len(),
        label_of(m, row, catalog)->0 == rotated(ring_of(row, terms, catalog), p)[k - 1],
        steps >= ring_of(row, terms, catalog).len() - k,
    ensures
        ring_walk(m, row, terms, catalog, rotated(ring_of(row, terms, catalog), p).take(k), steps)
            == rotated(ring_of(row, terms, catalog), p),
    decreases ring_of(row, terms, catalog).len() - k,
{
    let ring = ring_of(row, terms, catalog);
    let n = ring.len() as int;
    let all = rotated(ring, p);
    lemma_rotated(ring, p);
    if steps > 0 {
        lemma_ring_step(m, row, 1, terms, catalog);
        let i = if p + k - 1 < n {
            p + k - 1
        } else {
            p + k - 1 - n
        };
        assert(label_of(m, row, catalog)->0 == ring[i]);
        lemma_one_on(ring, i, true);
        let next = next_settings(m, row, 1, terms, catalog);
        let name = label_of(next, row, catalog)->0;
        if k < n {
            assert(name == all[k]);
            assert(!all.take(k).contains(name)) by {
                if all.take(k).contains(name) {
                    let j = choose|j: int| 0 <= j < k && all.take(k)[j] == name;
                    assert(all[j] == all[k]);
                }
            }
            assert(all.take(k).push(name) =~= all.take(k + 1));
            lemma_ring_walk(next, row, terms, catalog, p, k + 1, (steps - 1) as nat);
        } else {
            assert(name == all[0]);
            assert(all.take(k)[0] == name);
            assert(all.take(k) =~= all);
        }
    } else {
        assert(all.take(k) =~= all);
    }
}

/// A popup lists the model's whole ring, from the current name on, each name once; and
/// it does so even while its row is greyed.
pub proof fn a_popup_lists_the_whole_ring(
    m: SettingsModel,
    row: PrefRow,
    families: Seq<Seq<char>>,
    terms: Seq<Seq<char>>,
    catalog: Catalog,
)
    requires
        named_ring(row),
        ring_of(row, terms, catalog).no_duplicates(),
        ring_of(row, terms, catalog).contains(label_of(m, row, catalog)->0),
        ring_of(row, terms, catalog).len() <= MAX_STEPS,
    ensures
        choices_of(m, row, families, terms, catalog) == rotated(
            ring_of(row, terms, catalog),
            place(ring_of(row, terms, catalog), label_of(m, row, catalog)->0)->0,
        ),
        choices_of(m, row, families, terms, catalog).len() == ring_of(row, terms, catalog).len(),
        choices_of(m, row, families, terms, catalog).no_duplicates(),
        forall|name: Seq<char>| #[trigger]
            choices_of(m, row, families, terms, catalog).contains(name) <==> ring_of(
                row,
                terms,
                catalog,
            ).contains(name),
{
    let ring = ring_of(row, terms, catalog);
    let open = unlocked(m, row, catalog);
    let name = label_of(m, row, catalog)->0;
    place_is_first(ring, name);
    let p = place(ring, name)->0;
    lemma_rotated(ring, p);
    let all = rotated(ring, p);
    assert(live(open, row, catalog));
    assert(all.take(1) =~= seq![name]);
    lemma_ring_walk(open, row, terms, catalog, p, 1, MAX_STEPS as nat);
}

proof fn lemma_same_cycle(ring: Seq<Seq<char>>, p: int, name: Seq<char>, up: bool)
    requires
        ring.no_duplicates(),
        0 <= p < ring.len(),
        ring.contains(name),
    ensures
        cycled(ring, name, if up { 1 } else { -1 }) == cycled(
            rotated(ring, p),
            name,
            if up {
                1
            } else {
                -1
            },
        ),
        ring.contains(cycled(ring, name, if up { 1 } else { -1 })),
{
    lemma_rotated(ring, p);
    let all = rotated(ring, p);
    place_is_first(all, name);
    let j = place(all, name)->0;
    let n = ring.len() as int;
    let i = if p + j < n {
        p + j
    } else {
        p + j - n
    };
    assert(ring[i] == name);
    lemma_one_on(ring, i, up);
    lemma_one_on(all, j, up);
}

/// Picking from a popup over a named ring reaches every entry: a walk to a name of the
/// ring ends on it.
pub proof fn picking_from_a_popup_reaches_every_entry<F: FnMut(&String) -> bool>(
    states: Seq<SettingsModel>,
    row: PrefRow,
    target: Seq<char>,
    families: Seq<String>,
    terms: Seq<String>,
    catalog: Catalog,
    usable: F,
)
    requires
        named_ring(row),
        ring_of(row, views(terms), catalog).no_duplicates(),
        ring_of(row, views(terms), catalog).len() <= MAX_STEPS,
        ring_of(row, views(terms), catalog).contains(target),
        choice_walk(
            states,
            row,
            target,
            choices_of(states[0], row, views(families), views(terms), catalog),
            families,
            terms,
            catalog,
            usable,
        ),
        live(states[0], row, catalog),
        ring_of(row, views(terms), catalog).contains(label_of(states[0], row, catalog)->0),
        label_of(states[0], row, catalog)->0 != target,
    ensures
        label_of(states.last(), row, catalog) == Some(target),
{
    let ring = ring_of(row, views(terms), catalog);
    let list = choices_of(states[0], row, views(families), views(terms), catalog);
    a_popup_lists_the_whole_ring(states[0], row, views(families), views(terms), catalog);
    let names = Seq::new(states.len(), |i: int| label_of(states[i], row, catalog)->0);
    place_is_first(ring, names[0]);
    let p = place(ring, names[0])->0;
    let dir = choice_dir(list, names[0], target);
    let up = dir > 0;
    assert(dir == if up { 1int } else { -1int });
    assert forall|j: int| 0 <= j < states.len() implies live(#[trigger] states[j], row, catalog) && ring.contains(
        names[j],
    ) by {
        lemma_walk_in_ring(states, row, target, list, families, terms, catalog, usable, j);
    }
    assert forall|j: int| #![trigger names[j]] 0 < j < names.len() implies names[j] == cycled(
        list,
        names[j - 1],
        dir,
    ) by {
        assert(live(states[j - 1], row, catalog));
        lemma_ring_step(states[j - 1], row, dir, views(terms), catalog);
        lemma_same_cycle(ring, p, names[j - 1], up);
        assert(states[j] == next_settings(states[j - 1], row, dir, views(terms), catalog));
    }
    assert forall|j: int| #![trigger names[j]] 0 < j < names.len() - 1 implies !walk_stops(
        list,
        target,
        dir,
        names[j - 1],
        names[j],
    ) by {
        assert(states[j] == states[j]);
    }
    assert(list.contains(target));
    assert(list.contains(names[0]));
    lemma_walk_arrives(list, names, target);
}

proof fn lemma_walk_in_ring<F: FnMut(&String) -> bool>(
    states: Seq<SettingsModel>,
    row: PrefRow,
    target: Seq<char>,
    list: Seq<Seq<char>>,
    families: Seq<String>,
    terms: Seq<String>,
    catalog: Catalog,
    usable: F,
    j: int,
)
    requires
        named_ring(row),
        ring_of(row, views(terms), catalog).no_duplicates(),
        choice_walk(states, row, target, list, families, terms, catalog, usable),
        live(states[0], row, catalog),
        ring_of(row, views(terms), catalog).contains(label_of(states[0], row, catalog)->0),
        0 <= j < states.len(),
    ensures
        live(states[j], row, catalog),
        ring_of(row, views(terms), catalog).contains(label_of(states[j], row, catalog)->0),
    decreases j,
{
    if j > 0 {
        lemma_walk_in_ring(states, row, target, list, families, terms, catalog, usable, j - 1);
        let dir = choice_dir(list, label_of(states[0], row, catalog)->0, target);
        let ring = ring_of(row, views(terms), catalog);
        assert(states[j] == next_settings(states[j - 1], row, dir, views(terms), catalog));
        lemma_ring_step(states[j - 1], row, dir, views(terms), catalog);
        let name = label_of(states[j - 1], row, catalog)->0;
        place_is_first(ring, name);
        lemma_same_cycle(ring, place(ring, name)->0, name, dir > 0);
    }
}

} // verus!
