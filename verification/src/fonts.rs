//! Which fonts are offered, and which are loaded.
use vstd::prelude::*;
use vstd::string::*;
use crate::render::FontBlobs;
use crate::text::{comes_before, order_carries_over, one_comes_first, precedes, same_text, views};

verus! {

broadcast use vstd::string::group_string_axioms;

/// A font database of the `fontdb` crate.
#[verifier::external_type_specification]
#[verifier::external_body]
pub struct ExDatabase(fontdb::Database);

/// The number by which a font database of the `fontdb` crate knows a face.
#[verifier::external_type_specification]
#[verifier::external_body]
pub struct ExId(fontdb::ID);

/// A face of a font database: its families' names, whether it is monospaced, and what a
/// query compares: how heavy, how slanted and how wide it is.
pub struct Face {
    pub id: fontdb::ID,
    pub families: Seq<Seq<char>>,
    pub monospaced: bool,
    pub weight: int,
    pub slant: int,
    pub width: int,
}

impl Face {
    /// The first of its families' names, if it has any, and whether it is monospaced.
    pub open spec fn listed(self) -> (Option<Seq<char>>, bool) {
        (
            if self.families.len() > 0 {
                Some(self.families[0])
            } else {
                None
            },
            self.monospaced,
        )
    }
}

/// The faces that a font database holds, in the order in which it hands them out.
pub uninterp spec fn faces(db: fontdb::Database) -> Seq<Face>;

/// The contents of a list of faces.
pub open spec fn face_views(v: Seq<(Option<String>, bool)>) -> Seq<(Option<Seq<char>>, bool)> {
    Seq::new(v.len(), |i: int| (crate::text::text_view(v[i].0), v[i].1))
}

/// The faces of a database, as they are listed.
pub open spec fn listing(all: Seq<Face>) -> Seq<(Option<Seq<char>>, bool)> {
    Seq::new(all.len(), |i: int| all[i].listed())
}

/// Hands out, through `fontdb::Database::faces`, the faces that a database holds, which
/// are named [`faces`]: of each its first family name and its `monospaced` flag.
#[verifier::external_body]
fn list_faces(db: &fontdb::Database) -> (r: Vec<(Option<String>, bool)>)
    ensures
        face_views(r@) == listing(faces(*db)),
{
    db.faces().map(|f| (f.families.first().map(|n| n.0.clone()), f.monospaced)).collect()
}

/// Whether one of the faces `all` is of a family.
pub open spec fn has_family(all: Seq<Face>, family: Seq<char>) -> bool {
    exists|i: int| 0 <= i < all.len() && (#[trigger] all[i]).families.contains(family)
}

/// Whether a face of this number is among `all`, and of a family.
pub open spec fn has_face(all: Seq<Face>, family: Seq<char>, id: fontdb::ID) -> bool {
    exists|i: int| 0 <= i < all.len() && (#[trigger] all[i]).families.contains(family) && all[i].id == id
}

/// The weight of an ordinary face.
pub const NORMAL_WEIGHT: u16 = 400;

/// The weight of a bold face.
pub const BOLD_WEIGHT: u16 = 700;

/// Whether a face stands upright.
#[derive(Debug, Clone, Copy, PartialEq, Eq, Structural)]
pub enum Slant {
    Upright,
    Italic,
}

/// The face among `all` that `fontdb::Database::query` finds for a family by its name, of
/// normal width, of a weight, and upright or italic.
pub uninterp spec fn best_face(all: Seq<Face>, family: Seq<char>, weight: u16, slant: Slant) -> Option<fontdb::ID>;

/// Asks `fontdb::Database::query` for the face of a family that matches best, which is
/// named [`best_face`]. There is one exactly where the database holds a face of that
/// family, and then it is such a face. Which of several matches best, by the rules that
/// style sheets follow, is left to the name.
#[verifier::external_body]
fn query_face(db: &fontdb::Database, family: &str, weight: u16, slant: Slant) -> (r: Option<fontdb::ID>)
    ensures
        r == best_face(faces(*db), family@, weight, slant),
        r is Some <==> has_family(faces(*db), family@),
        r is Some ==> has_face(faces(*db), family@, r->0),
{
    db.query(&fontdb::Query {
        families: &[fontdb::Family::Name(family)],
        weight: fontdb::Weight(weight),
        stretch: fontdb::Stretch::Normal,
        style: match slant {
            Slant::Upright => fontdb::Style::Normal,
            Slant::Italic => fontdb::Style::Italic,
        },
    })
}

/// Whether `name` is the family of a monospaced face among `list`.
pub open spec fn is_monospace_family(list: Seq<(Option<Seq<char>>, bool)>, name: Seq<char>) -> bool {
    list.contains((Some(name), true))
}

/// Whether the texts are in the order of a dictionary, none of them twice.
pub open spec fn ascending(v: Seq<Seq<char>>) -> bool {
    forall|i: int, j: int| 0 <= i < j < v.len() ==> precedes(#[trigger] v[i], #[trigger] v[j])
}

/// Inserts a name into an ordered list, unless it is there already.
fn insert_name(v: &mut Vec<String>, name: &String)
    requires
        ascending(views(old(v)@)),
    ensures
        ascending(views(final(v)@)),
        forall|x: Seq<char>| #[trigger]
            views(final(v)@).contains(x) <==> views(old(v)@).contains(x) || x == name@,
{
    let ghost before = views(v@);
    let mut i: usize = 0;
    while i < v.len() && comes_before(v[i].as_str(), name.as_str())
        invariant
            i <= v@.len(),
            before == views(v@),
            forall|j: int| 0 <= j < i ==> precedes(#[trigger] before[j], name@),
        ensures
            i < v@.len() ==> !precedes(before[i as int], name@),
        decreases v@.len() - i,
    {
        i = i + 1;
    }
    if i < v.len() && same_text(v[i].as_str(), name.as_str()) {
        assert(before[i as int] == name@);
        return;
    }
    v.insert(i, name.clone());
    let ghost after = views(v@);
    proof {
        assert(after =~= before.insert(i as int, name@));
        assert forall|j: int, k: int| 0 <= j < k < after.len() implies precedes(
            #[trigger] after[j],
            #[trigger] after[k],
        ) by {
            if k == i {
                assert(after[j] == before[j]);
            } else if j == i {
                assert(after[k] == before[k - 1]);
                one_comes_first(before[i as int], name@);
                if k - 1 > i {
                    order_carries_over(name@, before[i as int], before[k - 1]);
                }
            } else {
                let p = if j < i { j } else { j - 1 };
                let q = if k < i { k } else { k - 1 };
                assert(after[j] == before[p] && after[k] == before[q]);
            }
        }
        assert forall|x: Seq<char>| #[trigger] after.contains(x) <==> before.contains(x) || x == name@ by {
            if before.contains(x) {
                let p = choose|p: int| 0 <= p < before.len() && before[p] == x;
                if p < i {
                    assert(after[p] == x);
                } else {
                    assert(after[p + 1] == x);
                }
            }
            if x == name@ {
                assert(after[i as int] == x);
            }
            if after.contains(x) {
                let p = choose|p: int| 0 <= p < after.len() && after[p] == x;
                if p < i {
                    assert(before[p] == x);
                } else if p > i {
                    assert(before[p - 1] == x);
                }
            }
        }
    }
}

/// The names of every monospaced family in the database, sorted, each once: what the
/// font picker offers.
pub fn monospace_families(db: &fontdb::Database) -> (r: Vec<String>)
    ensures
        ascending(views(r@)),
        forall|name: Seq<char>| #[trigger]
            views(r@).contains(name) <==> is_monospace_family(listing(faces(*db)), name),
{
    let list: Vec<(Option<String>, bool)> = list_faces(db);
    families_among(&list)
}

/// The names of the monospaced families among `list`, sorted, each once.
pub fn families_among(list: &Vec<(Option<String>, bool)>) -> (r: Vec<String>)
    ensures
        ascending(views(r@)),
        forall|name: Seq<char>| #[trigger]
            views(r@).contains(name) <==> is_monospace_family(face_views(list@), name),
{
    let ghost all = face_views(list@);
    let mut names: Vec<String> = Vec::new();
    let mut i: usize = 0;
    assert(all.take(0) =~= Seq::empty());
    assert(views(names@) =~= Seq::empty());
    while i < list.len()
        invariant
            i <= list@.len(),
            all == face_views(list@),
            ascending(views(names@)),
            forall|name: Seq<char>| #[trigger]
                views(names@).contains(name) <==> is_monospace_family(all.take(i as int), name),
        decreases list@.len() - i,
    {
        let ghost before = views(names@);
        assert(all.take(i + 1) =~= all.take(i as int).push(all[i as int]));
        if list[i].1 {
            if let Some(name) = &list[i].0 {
                insert_name(&mut names, name);
            }
        }
        proof {
            assert forall|name: Seq<char>| #[trigger]
                views(names@).contains(name) <==> is_monospace_family(all.take(i + 1), name) by {
                let x = (Some(name), true);
                let shorter = all.take(i as int);
                let longer = all.take(i + 1);
                if shorter.contains(x) {
                    let p = choose|p: int| 0 <= p < shorter.len() && shorter[p] == x;
                    assert(longer[p] == x);
                }
                if all[i as int] == x {
                    assert(longer[i as int] == x);
                }
                if longer.contains(x) {
                    let p = choose|p: int| 0 <= p < longer.len() && longer[p] == x;
                    if p < i {
                        assert(shorter[p] == x);
                    }
                }
                assert(before.contains(name) <==> is_monospace_family(shorter, name));
            }
        }
        i = i + 1;
    }
    assert(all.take(i as int) =~= all);
    names
}

/// The usual places of the fonts of a style. Those of the regular style name a
/// monospaced primary first, then fonts that cover what it lacks.
pub open spec fn font_paths(bold: bool, italic: bool) -> Seq<&'static str> {
    if bold && italic {
        seq![
            "/usr/share/fonts/truetype/dejavu/DejaVuSansMono-BoldOblique.ttf",
            "/usr/share/fonts/truetype/liberation/LiberationMono-BoldItalic.ttf",
            "/usr/share/fonts/truetype/dejavu/DejaVuSans-BoldOblique.ttf",
        ]
    } else if bold {
        seq![
            "/usr/share/fonts/truetype/dejavu/DejaVuSansMono-Bold.ttf",
            "/usr/share/fonts/truetype/liberation/LiberationMono-Bold.ttf",
            "/usr/share/fonts/truetype/dejavu/DejaVuSans-Bold.ttf",
        ]
    } else if italic {
        seq![
            "/usr/share/fonts/truetype/dejavu/DejaVuSansMono-Oblique.ttf",
            "/usr/share/fonts/truetype/liberation/LiberationMono-Italic.ttf",
            "/usr/share/fonts/truetype/dejavu/DejaVuSans-Oblique.ttf",
        ]
    } else {
        seq![
            "/usr/share/fonts/truetype/dejavu/DejaVuSansMono.ttf",
            "/usr/share/fonts/dejavu/DejaVuSansMono.ttf",
            "/usr/share/fonts/truetype/liberation/LiberationMono-Regular.ttf",
            "/usr/share/fonts/liberation/LiberationMono-Regular.ttf",
            "/usr/share/fonts/TTF/DejaVuSansMono.ttf",
            "/usr/share/fonts/noto/NotoSansMono-Regular.ttf",
            "/usr/share/fonts/truetype/dejavu/DejaVuSans.ttf",
            "/usr/share/fonts/truetype/agave/agave-r-autohinted.ttf",
            "/usr/share/fonts/truetype/freefont/FreeMono.ttf",
            "/usr/share/fonts/truetype/noto/NotoSansSymbols2-Regular.ttf",
        ]
    }
}

fn usual_paths(bold: bool, italic: bool) -> (r: Vec<&'static str>)
    ensures
        r@ == font_paths(bold, italic),
{
    if bold && italic {
        vec![
            "/usr/share/fonts/truetype/dejavu/DejaVuSansMono-BoldOblique.ttf",
            "/usr/share/fonts/truetype/liberation/LiberationMono-BoldItalic.ttf",
            "/usr/share/fonts/truetype/dejavu/DejaVuSans-BoldOblique.ttf",
        ]
    } else if bold {
        vec![
            "/usr/share/fonts/truetype/dejavu/DejaVuSansMono-Bold.ttf",
            "/usr/share/fonts/truetype/liberation/LiberationMono-Bold.ttf",
            "/usr/share/fonts/truetype/dejavu/DejaVuSans-Bold.ttf",
        ]
    } else if italic {
        vec![
            "/usr/share/fonts/truetype/dejavu/DejaVuSansMono-Oblique.ttf",
            "/usr/share/fonts/truetype/liberation/LiberationMono-Italic.ttf",
            "/usr/share/fonts/truetype/dejavu/DejaVuSans-Oblique.ttf",
        ]
    } else {
        vec![
            "/usr/share/fonts/truetype/dejavu/DejaVuSansMono.ttf",
            "/usr/share/fonts/dejavu/DejaVuSansMono.ttf",
            "/usr/share/fonts/truetype/liberation/LiberationMono-Regular.ttf",
            "/usr/share/fonts/liberation/LiberationMono-Regular.ttf",
            "/usr/share/fonts/TTF/DejaVuSansMono.ttf",
            "/usr/share/fonts/noto/NotoSansMono-Regular.ttf",
            "/usr/share/fonts/truetype/dejavu/DejaVuSans.ttf",
            "/usr/share/fonts/truetype/agave/agave-r-autohinted.ttf",
            "/usr/share/fonts/truetype/freefont/FreeMono.ttf",
            "/usr/share/fonts/truetype/noto/NotoSansSymbols2-Regular.ttf",
        ]
    }
}

/// What is there among several answers, in order.
pub open spec fn present(answers: Seq<Option<Vec<u8>>>) -> Seq<Vec<u8>>
    decreases answers.len(),
{
    if answers.len() == 0 {
        Seq::empty()
    } else {
        match answers.last() {
            Some(blob) => present(answers.drop_last()).push(blob),
            None => present(answers.drop_last()),
        }
    }
}

/// Whether `answers` are what `read` said of the `paths`, one by one.
pub open spec fn read_from<R: FnMut(&'static str) -> Option<Vec<u8>>>(
    read: R,
    paths: Seq<&'static str>,
    answers: Seq<Option<Vec<u8>>>,
) -> bool {
    &&& answers.len() == paths.len()
    &&& forall|i: int|
        #![trigger answers[i]]
        0 <= i < paths.len() ==> call_ensures(read, (paths[i],), answers[i])
}

/// Whether `blobs` is a chain that `read` can have given for the `paths`: every one
/// that it could read, in order.
pub open spec fn loaded_chain<R: FnMut(&'static str) -> Option<Vec<u8>>>(
    read: R,
    paths: Seq<&'static str>,
    blobs: Seq<Vec<u8>>,
) -> bool {
    exists|answers: Seq<Option<Vec<u8>>>| #[trigger] read_from(read, paths, answers) && blobs == present(
        answers,
    )
}

#[verifier::loop_isolation(false)]
fn read_paths<R: FnMut(&'static str) -> Option<Vec<u8>>>(paths: &Vec<&'static str>, read: &mut R) -> (r: Vec<
    Option<Vec<u8>>,
>)
    requires
        forall|p: &'static str| call_requires(*old(read), (p,)),
    ensures
        *final(read) == *old(read),
        read_from(*old(read), paths@, r@),
{
    let mut answers: Vec<Option<Vec<u8>>> = Vec::new();
    let ghost asked = *read;
    let mut i: usize = 0;
    while i < paths.len()
        invariant
            i <= paths@.len(),
            *read == asked,
            answers@.len() == i,
            forall|j: int|
                #![trigger answers@[j]]
                0 <= j < i ==> call_ensures(asked, (paths@[j],), answers@[j]),
        decreases paths@.len() - i,
    {
        let answer: Option<Vec<u8>> = read(paths[i]);
        answers.push(answer);
        i = i + 1;
    }
    answers
}

fn keep_present(answers: Vec<Option<Vec<u8>>>) -> (r: Vec<Vec<u8>>)
    ensures
        r@ == present(answers@),
{
    let ghost all = answers@;
    let mut out: Vec<Vec<u8>> = Vec::new();
    assert(out@ =~= present(all.take(0)));
    for answer in it: answers
        invariant
            it.seq() == all,
            out@ == present(all.take(it.index() as int)),
    {
        assert(all.take(it.index() + 1).drop_last() =~= all.take(it.index() as int));
        if let Some(blob) = answer {
            out.push(blob);
        }
    }
    assert(all.take(all.len() as int) =~= all);
    out
}

fn load_chain<R: FnMut(&'static str) -> Option<Vec<u8>>>(paths: &Vec<&'static str>, read: &mut R) -> (r: Vec<Vec<u8>>)
    requires
        forall|p: &'static str| call_requires(*old(read), (p,)),
    ensures
        *final(read) == *old(read),
        loaded_chain(*old(read), paths@, r@),
{
    keep_present(read_paths(paths, read))
}

/// How many of the usual places of regular fonts hold a primary. The rest hold fonts that
/// only cover what it lacks.
pub const PRIMARIES: usize = 6;

/// Whether a primary is among the answers that were had from the usual places.
pub open spec fn primary_among(answers: Seq<Option<Vec<u8>>>) -> bool {
    exists|i: int| 0 <= i < PRIMARIES && i < answers.len() && (#[trigger] answers[i]) is Some
}

/// The regular chain, given what the usual places answered: every font that was read, in
/// order. Without a primary there is none.
pub fn regular_of(answers: Vec<Option<Vec<u8>>>) -> (r: Option<Vec<Vec<u8>>>)
    ensures
        match r {
            Some(chain) => primary_among(answers@) && chain@ == present(answers@),
            None => !primary_among(answers@),
        },
{
    let mut i: usize = 0;
    while i < PRIMARIES && i < answers.len()
        invariant
            i <= PRIMARIES,
            i <= answers@.len(),
            forall|k: int| 0 <= k < i ==> (#[trigger] answers@[k]) is None,
        decreases PRIMARIES - i,
    {
        if answers[i].is_some() {
            assert(primary_among(answers@));
            return Some(keep_present(answers));
        }
        i = i + 1;
    }
    None
}

/// Whether `blobs` are the fonts that `read` can have given from their usual places.
pub open spec fn from_usual_places<R: FnMut(&'static str) -> Option<Vec<u8>>>(
    read: R,
    blobs: Option<FontBlobs>,
) -> bool {
    exists|answers: Seq<Option<Vec<u8>>>| #[trigger]
        read_from(read, font_paths(false, false), answers) && match blobs {
            None => !primary_among(answers),
            Some(b) => {
                &&& primary_among(answers)
                &&& b.regular@ == present(answers)
                &&& loaded_chain(read, font_paths(true, false), b.bold@)
                &&& loaded_chain(read, font_paths(false, true), b.italic@)
                &&& loaded_chain(read, font_paths(true, true), b.bold_italic@)
            },
        }
}

/// Load the fonts from their usual places, reading each through `read`. The styles
/// other than the regular one may come out empty; without a primary there is nothing to
/// draw text with.
pub fn load_fonts<R: FnMut(&'static str) -> Option<Vec<u8>>>(read: &mut R) -> (r: Option<FontBlobs>)
    requires
        forall|p: &'static str| call_requires(*old(read), (p,)),
    ensures
        *final(read) == *old(read),
        from_usual_places(*old(read), r),
{
    let answers: Vec<Option<Vec<u8>>> = read_paths(&usual_paths(false, false), read);
    let regular: Vec<Vec<u8>> = match regular_of(answers) {
        Some(chain) => chain,
        None => return None,
    };
    let bold: Vec<Vec<u8>> = load_chain(&usual_paths(true, false), read);
    let italic: Vec<Vec<u8>> = load_chain(&usual_paths(false, true), read);
    let bold_italic: Vec<Vec<u8>> = load_chain(&usual_paths(true, true), read);
    Some(FontBlobs { regular, bold, italic, bold_italic })
}

/// The families asked for in turn until one is installed, after the configured one.
pub open spec fn stand_ins() -> Seq<&'static str> {
    seq!["DejaVu Sans Mono", "monospace"]
}

/// The families that cover what the primary lacks, such as braille and symbols.
pub open spec fn coverage_families() -> Seq<&'static str> {
    seq!["DejaVu Sans", "Noto Sans Symbols2", "FreeMono"]
}

/// Whether `read` can have given `blob` for the face of a family in a database: nothing,
/// where there is no such face.
pub open spec fn face_read<F: FnMut(fontdb::ID) -> Option<Vec<u8>>>(
    db: fontdb::Database,
    read: F,
    family: Seq<char>,
    weight: u16,
    slant: Slant,
    blob: Option<Vec<u8>>,
) -> bool {
    match best_face(faces(db), family, weight, slant) {
        Some(id) => call_ensures(read, (id,), blob),
        None => blob is None,
    }
}

/// The bytes of the face of a family in a database, read through `read`: nothing, where
/// there is no such face or it cannot be read.
pub fn face_data<F: FnMut(fontdb::ID) -> Option<Vec<u8>>>(
    db: &fontdb::Database,
    family: &str,
    weight: u16,
    slant: Slant,
    read: &mut F,
) -> (r: Option<Vec<u8>>)
    requires
        forall|id: fontdb::ID| has_face(faces(*db), family@, id) ==> call_requires(*old(read), (id,)),
    ensures
        *final(read) == *old(read),
        face_read(*db, *old(read), family@, weight, slant, r),
        !has_family(faces(*db), family@) ==> r is None,
{
    match query_face(db, family, weight, slant) {
        Some(id) => read(id),
        None => None,
    }
}

/// Whether `blob` is a primary face that `lookup` can have given: the configured
/// family's, or else that of the first stand-in that is installed.
pub open spec fn primary_face<F: FnMut(fontdb::ID) -> Option<Vec<u8>>>(
    db: fontdb::Database,
    lookup: F,
    family: Seq<char>,
    blob: Option<Vec<u8>>,
) -> bool {
    ||| blob is Some && face_read(db, lookup, family, NORMAL_WEIGHT, Slant::Upright, blob)
    ||| {
        &&& face_read(db, lookup, family, NORMAL_WEIGHT, Slant::Upright, None)
        &&& blob is Some
        &&& face_read(db, lookup, stand_ins()[0]@, NORMAL_WEIGHT, Slant::Upright, blob)
    }
    ||| {
        &&& face_read(db, lookup, family, NORMAL_WEIGHT, Slant::Upright, None)
        &&& face_read(db, lookup, stand_ins()[0]@, NORMAL_WEIGHT, Slant::Upright, None)
        &&& face_read(db, lookup, stand_ins()[1]@, NORMAL_WEIGHT, Slant::Upright, blob)
    }
}

/// Whether `chain` is a regular chain that `lookup` can have given behind the primary:
/// the primary, then the families that cover what it lacks, each as far as it is
/// installed.
pub open spec fn regular_chain<F: FnMut(fontdb::ID) -> Option<Vec<u8>>>(
    db: fontdb::Database,
    lookup: F,
    primary: Option<Vec<u8>>,
    chain: Seq<Vec<u8>>,
) -> bool {
    exists|a: Option<Vec<u8>>, b: Option<Vec<u8>>, c: Option<Vec<u8>>|
        {
            &&& #[trigger] face_read(db, lookup, coverage_families()[0]@, NORMAL_WEIGHT, Slant::Upright, a)
            &&& #[trigger] face_read(db, lookup, coverage_families()[1]@, NORMAL_WEIGHT, Slant::Upright, b)
            &&& #[trigger] face_read(db, lookup, coverage_families()[2]@, NORMAL_WEIGHT, Slant::Upright, c)
            &&& chain == present(seq![primary, a, b, c])
        }
}

/// Whether `r` are the fonts to draw with, given what the database gave as the primary.
/// Where it gave one, the chains come from the database. Where it gave none, they come
/// from the usual places; if no primary is there either, from the database after all.
pub open spec fn fonts_with<
    F: FnMut(fontdb::ID) -> Option<Vec<u8>>,
    R: FnMut(&'static str) -> Option<Vec<u8>>,
>(db: fontdb::Database, lookup: F, read: R, family: Seq<char>, primary: Option<Vec<u8>>, r: FontBlobs) -> bool {
    ||| {
        &&& primary is Some || from_usual_places(read, None)
        &&& regular_chain(db, lookup, primary, r.regular@)
        &&& single_face(db, lookup, family, BOLD_WEIGHT, Slant::Upright, r.bold@)
        &&& single_face(db, lookup, family, NORMAL_WEIGHT, Slant::Italic, r.italic@)
        &&& single_face(db, lookup, family, BOLD_WEIGHT, Slant::Italic, r.bold_italic@)
    }
    ||| primary is None && from_usual_places(read, Some(r))
}

/// Whether `chain` is what `lookup` can have given for one face: itself, or nothing.
pub open spec fn single_face<F: FnMut(fontdb::ID) -> Option<Vec<u8>>>(
    db: fontdb::Database,
    lookup: F,
    family: Seq<char>,
    weight: u16,
    slant: Slant,
    chain: Seq<Vec<u8>>,
) -> bool {
    exists|a: Option<Vec<u8>>| #[trigger]
        face_read(db, lookup, family, weight, slant, a) && chain == present(seq![a])
}

fn one_face<F: FnMut(fontdb::ID) -> Option<Vec<u8>>>(
    db: &fontdb::Database,
    lookup: &mut F,
    family: &str,
    weight: u16,
    slant: Slant,
) -> (r: Vec<Vec<u8>>)
    requires
        forall|id: fontdb::ID| call_requires(*old(lookup), (id,)),
    ensures
        *final(lookup) == *old(lookup),
        single_face(*db, *old(lookup), family@, weight, slant, r@),
{
    let answer: Option<Vec<u8>> = face_data(db, family, weight, slant, lookup);
    let ghost given = seq![answer];
    proof {
        reveal_with_fuel(present, 2);
        assert(given.drop_last() =~= Seq::empty());
    }
    let mut out: Vec<Vec<u8>> = Vec::new();
    if let Some(blob) = answer {
        out.push(blob);
    }
    assert(out@ =~= present(given));
    out
}

/// Build the four font chains for `family` from the database. `lookup` gives the bytes of
/// one of its faces, and `read` those of a file.
///
/// The regular chain is the family's face, or that of a stand-in, followed by faces
/// that cover what it lacks. Where neither the family nor a stand-in is installed, the
/// fonts are loaded from their usual places.
pub fn font_blobs<F: FnMut(fontdb::ID) -> Option<Vec<u8>>, R: FnMut(&'static str) -> Option<Vec<u8>>>(
    db: &fontdb::Database,
    family: &str,
    lookup: &mut F,
    read: &mut R,
) -> (r: FontBlobs)
    requires
        forall|id: fontdb::ID| call_requires(*old(lookup), (id,)),
        forall|p: &'static str| call_requires(*old(read), (p,)),
    ensures
        *final(lookup) == *old(lookup),
        *final(read) == *old(read),
        exists|primary: Option<Vec<u8>>| #[trigger]
            primary_face(*db, *old(lookup), family@, primary) && fonts_with(
                *db,
                *old(lookup),
                *old(read),
                family@,
                primary,
                r,
            ),
{
    let ghost asked = *lookup;
    let mut primary: Option<Vec<u8>> = face_data(db, family, NORMAL_WEIGHT, Slant::Upright, lookup);
    if primary.is_none() {
        primary = face_data(db, "DejaVu Sans Mono", NORMAL_WEIGHT, Slant::Upright, lookup);
        if primary.is_none() {
            primary = face_data(db, "monospace", NORMAL_WEIGHT, Slant::Upright, lookup);
        }
    }
    assert(primary_face(*db, asked, family@, primary));
    let a: Option<Vec<u8>> = face_data(db, "DejaVu Sans", NORMAL_WEIGHT, Slant::Upright, lookup);
    let b: Option<Vec<u8>> = face_data(db, "Noto Sans Symbols2", NORMAL_WEIGHT, Slant::Upright, lookup);
    let c: Option<Vec<u8>> = face_data(db, "FreeMono", NORMAL_WEIGHT, Slant::Upright, lookup);
    let ghost given = seq![primary, a, b, c];
    let mut regular: Vec<Vec<u8>> = Vec::new();
    proof {
        assert(face_read(*db, asked, coverage_families()[0]@, NORMAL_WEIGHT, Slant::Upright, a));
        assert(face_read(*db, asked, coverage_families()[1]@, NORMAL_WEIGHT, Slant::Upright, b));
        assert(face_read(*db, asked, coverage_families()[2]@, NORMAL_WEIGHT, Slant::Upright, c));
        reveal_with_fuel(present, 5);
        assert(given.drop_last() =~= seq![primary, a, b]);
        assert(given.drop_last().drop_last() =~= seq![primary, a]);
        assert(given.drop_last().drop_last().drop_last() =~= seq![primary]);
        assert(given.drop_last().drop_last().drop_last().drop_last() =~= Seq::empty());
    }
    let found: bool = primary.is_some();
    if let Some(blob) = primary {
        regular.push(blob);
    }
    if let Some(blob) = a {
        regular.push(blob);
    }
    if let Some(blob) = b {
        regular.push(blob);
    }
    if let Some(blob) = c {
        regular.push(blob);
    }
    assert(regular@ =~= present(given));
    assert(regular_chain(*db, asked, primary, regular@));
    if !found {
        if let Some(blobs) = load_fonts(read) {
            return blobs;
        }
    }
    let bold: Vec<Vec<u8>> = one_face(db, lookup, family, BOLD_WEIGHT, Slant::Upright);
    let italic: Vec<Vec<u8>> = one_face(db, lookup, family, NORMAL_WEIGHT, Slant::Italic);
    let bold_italic: Vec<Vec<u8>> = one_face(db, lookup, family, BOLD_WEIGHT, Slant::Italic);
    FontBlobs { regular, bold, italic, bold_italic }
}

} // verus!
