//! Lists that are walked one name at a time and wrap at both ends.
use vstd::prelude::*;
use vstd::string::*;
use vstd::arithmetic::div_mod::*;
use crate::text::{same_text, views};

verus! {

/// Where `name` first stands in `list`.
pub open spec fn place(list: Seq<Seq<char>>, name: Seq<char>) -> Option<int>
    decreases list.len(),
{
    if list.len() == 0 {
        None
    } else {
        match place(list.drop_last(), name) {
            Some(i) => Some(i),
            None => if list.last() == name {
                Some(list.len() - 1)
            } else {
                None
            },
        }
    }
}

/// What [`place`] says: a name has a place where it stands, and the first such.
pub proof fn place_is_first(list: Seq<Seq<char>>, name: Seq<char>)
    ensures
        place(list, name) is Some <==> list.contains(name),
        place(list, name) is Some ==> 0 <= place(list, name)->0 < list.len() && list[place(list, name)->0]
            == name && forall|j: int| 0 <= j < place(list, name)->0 ==> list[j] != name,
    decreases list.len(),
{
    if list.len() > 0 {
        let rest = list.drop_last();
        place_is_first(rest, name);
        if rest.contains(name) {
            let k = choose|k: int| 0 <= k < rest.len() && rest[k] == name;
            assert(list[k] == name);
            let first = place(rest, name)->0;
            assert(list[first] == rest[first]);
            assert forall|j: int| 0 <= j < first implies list[j] != name by {
                assert(rest[j] == list[j]);
            }
        } else {
            if list.contains(name) {
                let k = choose|k: int| 0 <= k < list.len() && list[k] == name;
                assert(k == list.len() - 1) by {
                    if k < rest.len() {
                        assert(rest[k] == name);
                    }
                }
            }
            assert forall|j: int| 0 <= j < rest.len() implies list[j] != name by {
                assert(rest[j] == list[j]);
            }
            if list.last() == name {
                assert(list[list.len() - 1] == name);
            }
        }
    }
}

/// Where `name` first stands in `list`.
pub fn position(list: &Vec<String>, name: &str) -> (r: Option<usize>)
    ensures
        r is Some <==> place(views(list@), name@) is Some,
        r is Some ==> r->0 == place(views(list@), name@)->0 && r->0 < list@.len(),
{
    let ghost all = views(list@);
    let mut i: usize = 0;
    while i < list.len()
        invariant
            i <= list@.len(),
            all == views(list@),
            forall|j: int| 0 <= j < i ==> all[j] != name@,
        decreases list@.len() - i,
    {
        if same_text(list[i].as_str(), name) {
            assert(all[i as int] == name@);
            proof {
                place_is_first(all, name@);
            }
            return Some(i);
        }
        i = i + 1;
    }
    proof {
        place_is_first(all, name@);
    }
    None
}

/// The place that `dir` steps from `cur` lead to in a ring of `n`.
pub open spec fn stepped(cur: int, dir: int, n: int) -> int {
    (cur + dir) % n
}

/// The place that `dir` steps from `cur` lead to in a ring of `n`.
pub fn ring_step(cur: usize, dir: i32, n: usize) -> (r: usize)
    requires
        cur < n,
    ensures
        r == stepped(cur as int, dir as int, n as int),
        r < n,
{
    let m: i128 = n as i128;
    let d: i128 = dir as i128;
    let whole: i128 = if d >= 0 {
        (cur as i128 + d) % m
    } else {
        let back: i128 = (-d) % m;
        (cur as i128 + (m - back)) % m
    };
    proof {
        let n0 = n as int;
        if dir < 0 {
            let k = -(dir as int);
            let q = k / n0;
            lemma_fundamental_div_mod(k, n0);
            assert(k == n0 * q + k % n0);
            let x = cur as int - k;
            // One whole turn more than what was taken back, plus those left out.
            assert(cur as int + (n0 - k % n0) == (q + 1) * n0 + x) by (nonlinear_arith)
                requires
                    k == n0 * q + k % n0,
                    x == cur as int - k,
            ;
            lemma_mod_multiples_vanish(q + 1, x, n0);
            assert((n0 * (q + 1) + x) % n0 == x % n0);
            assert(n0 * (q + 1) == (q + 1) * n0) by (nonlinear_arith);
        }
        lemma_mod_bound(cur as int + dir as int, n0);
    }
    whole as usize
}

/// The place of the name that follows `name` in a ring, `dir` steps on. From a name
/// that is not in it, the natural end for the direction: the first going forward, the
/// last going back.
pub open spec fn next_place(list: Seq<Seq<char>>, name: Seq<char>, dir: int) -> int {
    match place(list, name) {
        Some(cur) => stepped(cur, dir, list.len() as int),
        None => if dir > 0 {
            0
        } else {
            list.len() - 1
        },
    }
}

/// The name that follows `name` in a ring, `dir` steps on. An empty ring has nothing
/// to offer and leaves the name alone.
pub open spec fn cycled(list: Seq<Seq<char>>, name: Seq<char>, dir: int) -> Seq<char> {
    if list.len() == 0 {
        name
    } else {
        list[next_place(list, name, dir)]
    }
}

/// The place of the name that follows `name` in a ring that is not empty.
pub fn next_position(list: &Vec<String>, name: &str, dir: i32) -> (r: usize)
    requires
        list@.len() > 0,
    ensures
        r == next_place(views(list@), name@, dir as int),
        r < list@.len(),
{
    match position(list, name) {
        Some(cur) => ring_step(cur, dir, list.len()),
        None => if dir > 0 {
            0
        } else {
            list.len() - 1
        },
    }
}

/// Moves `name` to the one that follows it in the ring.
pub fn cycle(list: &Vec<String>, name: &mut String, dir: i32)
    ensures
        final(name)@ == cycled(views(list@), old(name)@, dir as int),
{
    if list.len() > 0 {
        let next: usize = next_position(list, name.as_str(), dir);
        *name = list[next].clone();
    }
}

/// A step forward and a step back lead home, in a ring that names each thing once.
pub proof fn stepping_back_undoes_stepping(list: Seq<Seq<char>>, name: Seq<char>, dir: int)
    requires
        list.no_duplicates(),
        list.contains(name),
    ensures
        list.contains(cycled(list, name, dir)),
        cycled(list, cycled(list, name, dir), -dir) == name,
{
    place_is_first(list, name);
    let n = list.len() as int;
    let cur = place(list, name)->0;
    let at = stepped(cur, dir, n);
    lemma_mod_bound(cur + dir, n);
    place_is_first(list, list[at]);
    assert(place(list, list[at])->0 == at);
    lemma_sub_mod_noop(cur + dir, dir, n);
    lemma_mod_bound(dir, n);
    lemma_sub_mod_noop_right(at, dir, n);
    lemma_small_mod(cur as nat, n as nat);
    assert((at - dir) % n == cur) by {
        assert(((cur + dir) % n - dir % n) % n == (cur + dir - dir) % n);
        assert((at - dir % n) % n == (at - dir) % n);
    }
}

} // verus!
