//! What holds of the fonts and the atlas: which font draws a character, where its glyph
//! lies, and which faces and files a style is made of.
use vstd::prelude::*;
use crate::fonts::{best_face, face_read, faces, families_among, font_blobs, load_fonts, present, regular_of, Slant};
use crate::render::{
    glyph_key, glyph_map, glyph_maps, glyph_number, usable_chain, Atlas, Bitmap, Cached, FontBlobs, FontError,
    FontSet, Glyph, Style,
};
use crate::text::{precedes, views};

verus! {

/// A glyph that has been packed is found under its character and its style, where it was
/// put; one without texels is known to be blank. What is known of every other character,
/// and of the same one in another style, stays as it was.
pub proof fn a_glyph_is_found_where_it_was_put(
    atlas: &mut Atlas,
    c: char,
    bold: bool,
    italic: bool,
    bitmap: Bitmap,
    r: Option<Glyph>,
    d: char,
    heavy: bool,
    slanted: bool,
    before: Cached,
    after: Cached,
)
    requires
        call_ensures(Atlas::pack, (atlas, c, bold, italic, bitmap), r),
        call_ensures(Atlas::lookup, (&*old(atlas), d, heavy, slanted), before),
        call_ensures(Atlas::lookup, (&*final(atlas), d, heavy, slanted), after),
    ensures
        !(c == d && bold == heavy && italic == slanted) ==> after == before,
        c == d && bold == heavy && italic == slanted ==> {
            &&& r is Some ==> after == Cached::Placed(r->0)
            &&& bitmap.width == 0 || bitmap.height == 0 ==> after == Cached::Blank
            &&& r is None && bitmap.width != 0 && bitmap.height != 0 ==> after == before
        },
        bitmap.width == 0 || bitmap.height == 0 ==> r is None,
{
    if glyph_key(c, bold, italic) == glyph_key(d, heavy, slanted) {
        crate::render::every_glyph_has_its_own_key(c, bold, italic, d, heavy, slanted);
    }
}

/// A packed glyph has the size of its bitmap, stands over the baseline as the bitmap does,
/// lies inside the atlas and clear of its first two columns and lines, and shares no texel
/// with any other glyph there.
pub proof fn a_packed_glyph_has_a_place_of_its_own(
    atlas: &mut Atlas,
    c: char,
    bold: bool,
    italic: bool,
    bitmap: Bitmap,
    r: Option<Glyph>,
    d: char,
    heavy: bool,
    slanted: bool,
    other: Glyph,
)
    requires
        old(atlas).wf(),
        bitmap.ymin + bitmap.height <= i32::MAX,
        call_ensures(Atlas::pack, (atlas, c, bold, italic, bitmap), r),
        call_ensures(Atlas::lookup, (&*old(atlas), d, heavy, slanted), Cached::Placed(other)),
        !(c == d && bold == heavy && italic == slanted),
        r is Some,
    ensures
        r->0.w == bitmap.width,
        r->0.h == bitmap.height,
        r->0.left == bitmap.xmin,
        r->0.top == bitmap.ymin + bitmap.height,
        2 <= r->0.x && r->0.x + r->0.w < 1024,
        2 <= r->0.y && r->0.y + r->0.h < 1024,
        r->0.x + r->0.w <= other.x || other.x + other.w <= r->0.x || r->0.y + r->0.h <= other.y || other.y + other.h
            <= r->0.y,
{
    let key = glyph_key(c, bold, italic);
    let at = glyph_key(d, heavy, slanted);
    if key == at {
        crate::render::every_glyph_has_its_own_key(c, bold, italic, d, heavy, slanted);
    }
    let after = *final(atlas);
    crate::render::packed_glyphs_never_overlap(after, key, at);
}

/// An empty atlas knows no glyph, and has room for any that leaves a texel free on every
/// side: it is packed into the corner.
pub proof fn an_empty_atlas_packs_into_the_corner(
    atlas: &mut Atlas,
    c: char,
    bold: bool,
    italic: bool,
    bitmap: Bitmap,
    r: Option<Glyph>,
    known: Cached,
)
    requires
        call_ensures(Atlas::new, (), *old(atlas)),
        call_ensures(Atlas::lookup, (&*old(atlas), c, bold, italic), known),
        call_ensures(Atlas::pack, (atlas, c, bold, italic, bitmap), r),
    ensures
        known == Cached::Unseen,
        r is Some <==> 0 < bitmap.width <= 1020 && 0 < bitmap.height <= 1020,
        r is Some ==> r->0.x == 2 && r->0.y == 2,
{
}

/// A cleared atlas is as good as new.
pub proof fn a_cleared_atlas_is_empty(atlas: &mut Atlas, c: char, bold: bool, italic: bool, known: Cached, new: Atlas)
    requires
        call_ensures(Atlas::clear, (atlas,), ()),
        call_ensures(Atlas::new, (), new),
        call_ensures(Atlas::lookup, (&*final(atlas), c, bold, italic), known),
    ensures
        known == Cached::Unseen,
        final(atlas).cursor() == new.cursor(),
        final(atlas).wf(),
{
}

/// A glyph stands to the right of the one packed before it, a texel apart, where there is
/// room; where there is none, it begins a new line of glyphs below all of the last one.
pub proof fn glyphs_are_packed_in_lines(
    first: &mut Atlas,
    second: &mut Atlas,
    c: char,
    d: char,
    a: Bitmap,
    b: Bitmap,
    r: Option<Glyph>,
    s: Option<Glyph>,
)
    requires
        old(first).wf(),
        a.ymin + a.height <= i32::MAX,
        b.ymin + b.height <= i32::MAX,
        *old(second) == *final(first),
        call_ensures(Atlas::pack, (first, c, false, false, a), r),
        call_ensures(Atlas::pack, (second, d, false, false, b), s),
        r is Some,
        0 < b.width <= 1020,
        0 < b.height <= 1020,
    ensures
        r->0.x + r->0.w + 1 + b.width + 1 < 1024 ==> {
            &&& s is Some <==> r->0.y + b.height + 1 < 1024
            &&& s is Some ==> s->0.y == r->0.y && s->0.x == r->0.x + r->0.w + 1
        },
        r->0.x + r->0.w + 1 + b.width + 1 >= 1024 && s is Some ==> s->0.x == 2 && s->0.y >= r->0.y + r->0.h + 1,
{
    let before = *old(first);
    let after = *final(first);
    before.lemma_cursor_inside();
    after.lemma_cursor_inside();
}

/// Whether a font has a glyph for a character.
pub open spec fn covers(font: fontdue::Font, c: char) -> bool {
    glyph_number(glyph_map(font), c) != 0
}

/// Whether a font of a chain has a glyph for a character.
pub open spec fn covered(chain: Seq<fontdue::Font>, c: char) -> bool {
    exists|i: int| 0 <= i < chain.len() && covers(#[trigger] chain[i], c)
}

/// Whether font `i` is the first of a chain that has a glyph for a character.
pub open spec fn first_to_cover(chain: Seq<fontdue::Font>, c: char, i: int) -> bool {
    &&& 0 <= i < chain.len()
    &&& covers(chain[i], c)
    &&& forall|j: int| 0 <= j < i ==> !covers(#[trigger] chain[j], c)
}

proof fn lemma_covering(chain: Seq<fontdue::Font>, c: char)
    ensures
        match crate::render::covering(glyph_maps(chain), c) {
            Some(i) => first_to_cover(chain, c, i) && covered(chain, c),
            None => !covered(chain, c),
        },
    decreases chain.len(),
{
    let maps = glyph_maps(chain);
    if chain.len() > 0 {
        let before = chain.drop_last();
        lemma_covering(before, c);
        assert(maps.drop_last() =~= glyph_maps(before));
        assert forall|i: int| 0 <= i < before.len() implies #[trigger] chain[i] == before[i] by {}
        match crate::render::covering(glyph_maps(before), c) {
            Some(i) => {
                assert(chain[i] == before[i]);
                assert forall|j: int| 0 <= j < i implies !covers(#[trigger] chain[j], c) by {
                    assert(chain[j] == before[j]);
                }
            },
            None => {
                let last = chain.len() - 1;
                assert forall|j: int| 0 <= j < last implies !covers(#[trigger] chain[j], c) by {
                    assert(chain[j] == before[j]);
                }
                assert(maps.last() == glyph_map(chain[last]));
            },
        }
    }
}

/// A character is drawn in the style that it is asked for in, where a font of that style
/// has a glyph for it; bold italic then makes do with bold, and else with italic; and every
/// style makes do with the regular one in the end. Within a style the first font that has a
/// glyph draws it. Where no font has one, the primary draws a blank.
pub proof fn a_character_is_drawn_in_its_style(
    fonts: &FontSet,
    c: char,
    bold: bool,
    italic: bool,
    style: Style,
    i: usize,
)
    requires
        call_ensures(FontSet::font_for, (fonts, c, bold, italic), (style, i)),
    ensures
        bold && italic && covered(fonts.bold_italic@, c) ==> style == Style::BoldItalic,
        bold && !italic && covered(fonts.bold@, c) ==> style == Style::Bold,
        !bold && italic && covered(fonts.italic@, c) ==> style == Style::Italic,
        !bold && !italic ==> style == Style::Regular,
        bold && italic && !covered(fonts.bold_italic@, c) && covered(fonts.bold@, c) ==> style == Style::Bold,
        bold && italic && !covered(fonts.bold_italic@, c) && !covered(fonts.bold@, c) && covered(fonts.italic@, c)
            ==> style == Style::Italic,
        !bold ==> style != Style::Bold && style != Style::BoldItalic,
        !italic ==> style != Style::Italic && style != Style::BoldItalic,
        style == Style::BoldItalic ==> first_to_cover(fonts.bold_italic@, c, i as int),
        style == Style::Bold ==> first_to_cover(fonts.bold@, c, i as int),
        style == Style::Italic ==> first_to_cover(fonts.italic@, c, i as int),
        style == Style::Regular && covered(fonts.regular@, c) ==> first_to_cover(fonts.regular@, c, i as int),
        style == Style::Regular && !covered(fonts.regular@, c) ==> i == 0,
{
    lemma_covering(fonts.regular@, c);
    lemma_covering(fonts.bold@, c);
    lemma_covering(fonts.italic@, c);
    lemma_covering(fonts.bold_italic@, c);
    reveal_with_fuel(crate::render::drawn_by, 6);
    let styles = crate::render::preferred(bold, italic);
    if bold && italic {
        assert(styles.skip(1) =~= seq![Style::Bold, Style::Italic, Style::Regular]);
        assert(styles.skip(1).skip(1) =~= seq![Style::Italic, Style::Regular]);
        assert(styles.skip(1).skip(1).skip(1) =~= seq![Style::Regular]);
        assert(styles.skip(1).skip(1).skip(1).skip(1) =~= Seq::<Style>::empty());
    } else if bold || italic {
        assert(styles.skip(1) =~= seq![Style::Regular]);
        assert(styles.skip(1).skip(1) =~= Seq::<Style>::empty());
    } else {
        assert(styles.skip(1) =~= Seq::<Style>::empty());
    }
}

/// A place in a style's chain names the font there.
pub proof fn a_place_names_its_font(fonts: &FontSet, style: Style, i: usize, r: &fontdue::Font)
    requires
        call_ensures(FontSet::font, (fonts, style, i), r),
    ensures
        style == Style::Regular ==> *r == fonts.regular@[i as int],
        style == Style::Bold ==> *r == fonts.bold@[i as int],
        style == Style::Italic ==> *r == fonts.italic@[i as int],
        style == Style::BoldItalic ==> *r == fonts.bold_italic@[i as int],
{
}

/// A chain holds the fonts that could be read, in their order: one more that can be read
/// stands behind the others, and one that cannot changes nothing. A chain fails only where
/// its first font is required and cannot be read, and says why.
pub proof fn a_chain_holds_what_can_be_read(
    results: Vec<Result<fontdue::Font, &'static str>>,
    more: Vec<Result<fontdue::Font, &'static str>>,
    required: bool,
    r: Result<Vec<fontdue::Font>, FontError>,
    s: Result<Vec<fontdue::Font>, FontError>,
)
    requires
        call_ensures(usable_chain, (results, required), r),
        call_ensures(usable_chain, (more, required), s),
        more@.len() == results@.len() + 1,
        more@.drop_last() == results@,
    ensures
        r is Err <==> required && results@.len() > 0 && results@[0] is Err,
        r is Err ==> r->Err_0 is Primary && r->Err_0->Primary_0@ == results@[0]->Err_0@,
        results@.len() == 0 ==> r is Ok && r->Ok_0@.len() == 0,
        r is Ok && s is Ok && more@.last() is Ok ==> s->Ok_0@ == r->Ok_0@.push(more@.last()->Ok_0),
        r is Ok && s is Ok && more@.last() is Err ==> s->Ok_0@ == r->Ok_0@,
{
}

/// A chain of files is read file by file: one more that can be read stands behind the others,
/// and one that cannot changes nothing. It fails only where its first file must be read and
/// cannot be, with the words that reading it gave.
pub proof fn a_chain_is_read_file_by_file(
    blobs: &Vec<Vec<u8>>,
    more: &Vec<Vec<u8>>,
    required: bool,
    first: Result<fontdue::Font, &'static str>,
    last: Result<fontdue::Font, &'static str>,
    r: Result<Vec<fontdue::Font>, FontError>,
    s: Result<Vec<fontdue::Font>, FontError>,
)
    requires
        call_ensures(crate::render::parse_chain, (blobs, required), r),
        call_ensures(crate::render::parse_chain, (more, required), s),
        more@.len() == blobs@.len() + 1,
        more@.drop_last() == blobs@,
        call_ensures(crate::render::read_font, (&more@[0],), first),
        call_ensures(crate::render::read_font, (&more@.last(),), last),
    ensures
        s is Err <==> required && first is Err,
        s is Err ==> s->Err_0 is Primary && s->Err_0->Primary_0@ == first->Err_0@,
        blobs@.len() == 0 ==> r is Ok && r->Ok_0@.len() == 0,
        r is Ok && s is Ok && last is Ok ==> glyph_maps(s->Ok_0@) == glyph_maps(r->Ok_0@).push(glyph_map(last->Ok_0)),
        r is Ok && s is Ok && last is Err ==> glyph_maps(s->Ok_0@) == glyph_maps(r->Ok_0@),
{
    if blobs@.len() == 0 && r is Ok {
        assert(glyph_maps(r->Ok_0@).len() == r->Ok_0@.len());
    }
}

/// The four chains are parsed from the four lists of files, each from its own. Without a
/// regular font there are no fonts.
pub proof fn each_style_is_parsed_from_its_own_files(
    blobs: &FontBlobs,
    r: Result<FontSet, FontError>,
    bold: Vec<fontdue::Font>,
    italic: Vec<fontdue::Font>,
    bold_italic: Vec<fontdue::Font>,
    regular: Result<Vec<fontdue::Font>, FontError>,
)
    requires
        call_ensures(FontSet::parse, (blobs,), r),
        call_ensures(crate::render::parse_chain, (&blobs.regular, true), regular),
        call_ensures(crate::render::parse_chain, (&blobs.bold, false), Ok(bold)),
        call_ensures(crate::render::parse_chain, (&blobs.italic, false), Ok(italic)),
        call_ensures(crate::render::parse_chain, (&blobs.bold_italic, false), Ok(bold_italic)),
    ensures
        r is Ok <==> regular is Ok && regular->Ok_0@.len() > 0,
        r is Ok ==> {
            &&& glyph_maps(r->Ok_0.regular@) == glyph_maps(regular->Ok_0@)
            &&& glyph_maps(r->Ok_0.bold@) == glyph_maps(bold@)
            &&& glyph_maps(r->Ok_0.italic@) == glyph_maps(italic@)
            &&& glyph_maps(r->Ok_0.bold_italic@) == glyph_maps(bold_italic@)
        },
        r is Err && regular is Ok ==> r->Err_0 is NoPrimary,
        regular is Err ==> r is Err && r->Err_0 is Primary && r->Err_0->Primary_0@ == regular->Err_0->Primary_0@,
{
}

/// What is said of fonts that cannot be used names the trouble.
pub proof fn a_font_error_names_the_trouble(e: &FontError, r: String)
    requires
        call_ensures(FontError::message, (e,), r),
    ensures
        e is NoPrimary ==> r@ == "no usable primary font"@,
        e is Primary ==> r@ == "primary font parse failed: "@ + e->Primary_0@,
{
}

/// The families offered are those of monospaced faces, each once and in the order of a
/// dictionary; a face without a name offers none.
pub proof fn monospaced_families_are_offered_once(list: &Vec<(Option<String>, bool)>, r: Vec<String>)
    requires
        call_ensures(families_among, (list,), r),
    ensures
        forall|i: int|
            0 <= i < list@.len() && offers(#[trigger] list@[i]) is Some ==> exists|k: int|
                0 <= k < r@.len() && (#[trigger] r@[k])@ == offers(list@[i])->0,
        forall|k: int| 0 <= k < r@.len() ==> is_offered(list@, (#[trigger] r@[k])@),
        forall|j: int, k: int| 0 <= j < k < r@.len() ==> precedes((#[trigger] r@[j])@, (#[trigger] r@[k])@),
{
    let all = crate::fonts::face_views(list@);
    let names = views(r@);
    assert forall|i: int| 0 <= i < list@.len() && offers(#[trigger] list@[i]) is Some implies exists|k: int|
        0 <= k < r@.len() && (#[trigger] r@[k])@ == offers(list@[i])->0 by {
        let name = offers(list@[i])->0;
        assert(all[i] == (Some(name), true));
        assert(all.contains((Some(name), true)));
        assert(names.contains(name));
        let k = choose|k: int| 0 <= k < names.len() && names[k] == name;
        assert(r@[k]@ == name);
    }
    assert forall|k: int| 0 <= k < r@.len() implies is_offered(list@, (#[trigger] r@[k])@) by {
        let name = r@[k]@;
        assert(names[k] == name);
        assert(names.contains(name));
        let i = choose|i: int| 0 <= i < all.len() && all[i] == (Some(name), true);
        assert(offers(list@[i]) == Some(name));
    }
    assert forall|j: int, k: int| 0 <= j < k < r@.len() implies precedes(
        (#[trigger] r@[j])@,
        (#[trigger] r@[k])@,
    ) by {
        assert(names[j] == r@[j]@ && names[k] == r@[k]@);
    }
}

/// The family that a face offers: its own, if it is monospaced and has one.
pub open spec fn offers(face: (Option<String>, bool)) -> Option<Seq<char>> {
    match face {
        (Some(name), true) => Some(name@),
        _ => None,
    }
}

/// Whether one of the faces offers a family.
pub open spec fn is_offered(list: Seq<(Option<String>, bool)>, name: Seq<char>) -> bool {
    exists|i: int| 0 <= i < list.len() && offers(#[trigger] list[i]) == Some(name)
}

/// There are regular fonts where one of the first six places holds one: the others only
/// cover what such a font lacks.
pub proof fn only_a_primary_makes_a_chain(answers: Vec<Option<Vec<u8>>>, r: Option<Vec<Vec<u8>>>)
    requires
        call_ensures(regular_of, (answers,), r),
    ensures
        r is Some <==> exists|i: int| 0 <= i < 6 && i < answers@.len() && (#[trigger] answers@[i]) is Some,
{
}

/// One more place behind the others adds what it holds behind what they hold, and nothing
/// where it holds nothing.
pub proof fn a_chain_keeps_the_order_of_its_places(
    answers: Vec<Option<Vec<u8>>>,
    more: Vec<Option<Vec<u8>>>,
    r: Vec<Vec<u8>>,
    s: Vec<Vec<u8>>,
)
    requires
        call_ensures(regular_of, (answers,), Some(r)),
        call_ensures(regular_of, (more,), Some(s)),
        more@.len() > 0,
        more@.drop_last() == answers@,
    ensures
        more@.last() is Some ==> s@ == r@.push(more@.last()->0),
        more@.last() is None ==> s@ == r@,
{
}

proof fn lemma_present(answers: Seq<Option<Vec<u8>>>, k: int)
    requires
        0 <= k < present(answers).len(),
    ensures
        exists|i: int| 0 <= i < answers.len() && #[trigger] answers[i] == Some(present(answers)[k]),
    decreases answers.len(),
{
    if answers.len() > 0 {
        let before = answers.drop_last();
        if k < present(before).len() {
            lemma_present(before, k);
            let i = choose|i: int| 0 <= i < before.len() && #[trigger] before[i] == Some(present(before)[k]);
            assert(answers[i] == before[i]);
        } else {
            assert(answers[answers.len() - 1] == Some(present(answers)[k]));
        }
    }
}

/// Whether `blob` is what `read` gave for one of the three files of a style.
pub open spec fn from_one_of<R: FnMut(&'static str) -> Option<Vec<u8>>>(
    read: R,
    blob: Vec<u8>,
    a: &'static str,
    b: &'static str,
    c: &'static str,
) -> bool {
    ||| call_ensures(read, (a,), Some(blob))
    ||| call_ensures(read, (b,), Some(blob))
    ||| call_ensures(read, (c,), Some(blob))
}

proof fn lemma_from_one_of<R: FnMut(&'static str) -> Option<Vec<u8>>>(
    read: R,
    paths: Seq<&'static str>,
    blobs: Seq<Vec<u8>>,
    k: int,
)
    requires
        crate::fonts::loaded_chain(read, paths, blobs),
        paths.len() == 3,
        0 <= k < blobs.len(),
    ensures
        from_one_of(read, blobs[k], paths[0], paths[1], paths[2]),
{
    let answers = choose|answers: Seq<Option<Vec<u8>>>| #[trigger]
        crate::fonts::read_from(read, paths, answers) && blobs == present(answers);
    lemma_present(answers, k);
    let i = choose|i: int| 0 <= i < answers.len() && #[trigger] answers[i] == Some(present(answers)[k]);
    assert(i == 0 || i == 1 || i == 2);
}

/// The styles are read from files of their own: a bold font comes from a bold file, an
/// italic one from an italic file, and a bold italic one from a bold italic file.
pub proof fn each_style_is_read_from_its_own_files<R: FnMut(&'static str) -> Option<Vec<u8>>>(
    read: &mut R,
    r: FontBlobs,
    k: int,
)
    requires
        call_ensures(load_fonts::<R>, (read,), Some(r)),
    ensures
        0 <= k < r.bold@.len() ==> from_one_of(
            *old(read),
            r.bold@[k],
            "/usr/share/fonts/truetype/dejavu/DejaVuSansMono-Bold.ttf",
            "/usr/share/fonts/truetype/liberation/LiberationMono-Bold.ttf",
            "/usr/share/fonts/truetype/dejavu/DejaVuSans-Bold.ttf",
        ),
        0 <= k < r.italic@.len() ==> from_one_of(
            *old(read),
            r.italic@[k],
            "/usr/share/fonts/truetype/dejavu/DejaVuSansMono-Oblique.ttf",
            "/usr/share/fonts/truetype/liberation/LiberationMono-Italic.ttf",
            "/usr/share/fonts/truetype/dejavu/DejaVuSans-Oblique.ttf",
        ),
        0 <= k < r.bold_italic@.len() ==> from_one_of(
            *old(read),
            r.bold_italic@[k],
            "/usr/share/fonts/truetype/dejavu/DejaVuSansMono-BoldOblique.ttf",
            "/usr/share/fonts/truetype/liberation/LiberationMono-BoldItalic.ttf",
            "/usr/share/fonts/truetype/dejavu/DejaVuSans-BoldOblique.ttf",
        ),
{
    if 0 <= k < r.bold@.len() {
        lemma_from_one_of(*old(read), crate::fonts::font_paths(true, false), r.bold@, k);
    }
    if 0 <= k < r.italic@.len() {
        lemma_from_one_of(*old(read), crate::fonts::font_paths(false, true), r.italic@, k);
    }
    if 0 <= k < r.bold_italic@.len() {
        lemma_from_one_of(*old(read), crate::fonts::font_paths(true, true), r.bold_italic@, k);
    }
}

/// The regular fonts come from the places of a monospaced primary or of one that covers
/// what it lacks; where none of the primaries' places can be read, there are no fonts.
pub proof fn a_primary_is_read_from_its_usual_places<R: FnMut(&'static str) -> Option<Vec<u8>>>(
    read: &mut R,
    r: Option<FontBlobs>,
)
    requires
        call_ensures(load_fonts::<R>, (read,), r),
    ensures
        r is None ==> {
            &&& call_ensures(*old(read), ("/usr/share/fonts/truetype/dejavu/DejaVuSansMono.ttf",), None)
            &&& call_ensures(*old(read), ("/usr/share/fonts/dejavu/DejaVuSansMono.ttf",), None)
            &&& call_ensures(*old(read), ("/usr/share/fonts/truetype/liberation/LiberationMono-Regular.ttf",), None)
            &&& call_ensures(*old(read), ("/usr/share/fonts/liberation/LiberationMono-Regular.ttf",), None)
            &&& call_ensures(*old(read), ("/usr/share/fonts/TTF/DejaVuSansMono.ttf",), None)
            &&& call_ensures(*old(read), ("/usr/share/fonts/noto/NotoSansMono-Regular.ttf",), None)
        },
        r is Some ==> r->0.regular@.len() > 0,
        r is Some ==> forall|k: int|
            0 <= k < r->0.regular@.len() ==> from_regular(*old(read), #[trigger] r->0.regular@[k]),
{
    let paths = crate::fonts::font_paths(false, false);
    let answers = choose|answers: Seq<Option<Vec<u8>>>| #[trigger]
        crate::fonts::read_from(*old(read), paths, answers) && match r {
            None => !crate::fonts::primary_among(answers),
            Some(b) => crate::fonts::primary_among(answers) && b.regular@ == present(answers),
        };
    if r is None {
        assert(answers[0] is None && answers[1] is None && answers[2] is None);
        assert(answers[3] is None && answers[4] is None && answers[5] is None);
    } else {
        let i = choose|i: int| 0 <= i < 6 && i < answers.len() && (#[trigger] answers[i]) is Some;
        lemma_some_present(answers, i);
        assert forall|k: int| 0 <= k < r->0.regular@.len() implies from_regular(
            *old(read),
            #[trigger] r->0.regular@[k],
        ) by {
            lemma_present(answers, k);
            let i = choose|i: int| 0 <= i < answers.len() && #[trigger] answers[i] == Some(present(answers)[k]);
            assert(call_ensures(*old(read), (paths[i],), answers[i]));
        }
    }
}

proof fn lemma_some_present(answers: Seq<Option<Vec<u8>>>, i: int)
    requires
        0 <= i < answers.len(),
        answers[i] is Some,
    ensures
        present(answers).len() > 0,
    decreases answers.len(),
{
    if i < answers.len() - 1 {
        assert(answers.drop_last()[i] == answers[i]);
        lemma_some_present(answers.drop_last(), i);
    }
}

/// Whether `blob` is what `read` gave for one of the usual places of regular fonts.
pub open spec fn from_regular<R: FnMut(&'static str) -> Option<Vec<u8>>>(read: R, blob: Vec<u8>) -> bool {
    ||| call_ensures(read, ("/usr/share/fonts/truetype/dejavu/DejaVuSansMono.ttf",), Some(blob))
    ||| call_ensures(read, ("/usr/share/fonts/dejavu/DejaVuSansMono.ttf",), Some(blob))
    ||| call_ensures(read, ("/usr/share/fonts/truetype/liberation/LiberationMono-Regular.ttf",), Some(blob))
    ||| call_ensures(read, ("/usr/share/fonts/liberation/LiberationMono-Regular.ttf",), Some(blob))
    ||| call_ensures(read, ("/usr/share/fonts/TTF/DejaVuSansMono.ttf",), Some(blob))
    ||| call_ensures(read, ("/usr/share/fonts/noto/NotoSansMono-Regular.ttf",), Some(blob))
    ||| call_ensures(read, ("/usr/share/fonts/truetype/dejavu/DejaVuSans.ttf",), Some(blob))
    ||| call_ensures(read, ("/usr/share/fonts/truetype/agave/agave-r-autohinted.ttf",), Some(blob))
    ||| call_ensures(read, ("/usr/share/fonts/truetype/freefont/FreeMono.ttf",), Some(blob))
    ||| call_ensures(read, ("/usr/share/fonts/truetype/noto/NotoSansSymbols2-Regular.ttf",), Some(blob))
}

/// Whether `blob` is what `lookup` gave for the face of a family in a weight and a slant.
pub open spec fn from_face<F: FnMut(fontdb::ID) -> Option<Vec<u8>>>(
    db: fontdb::Database,
    lookup: F,
    family: Seq<char>,
    weight: u16,
    slant: Slant,
    blob: Vec<u8>,
) -> bool {
    let id = best_face(faces(db), family, weight, slant);
    id is Some && call_ensures(lookup, (id->0,), Some(blob))
}

/// Where no file can be read from its usual place, every font comes from the database, and
/// each style from the family's own face of that style: the bold one is heavier, the italic
/// one is slanted, and the bold italic one is both. A regular font is the family's, that of
/// a stand-in, or one that covers what they lack.
pub proof fn each_style_is_the_familys_own<
    F: FnMut(fontdb::ID) -> Option<Vec<u8>>,
    R: FnMut(&'static str) -> Option<Vec<u8>>,
>(db: &fontdb::Database, family: &str, lookup: &mut F, read: &mut R, r: FontBlobs, k: int)
    requires
        call_ensures(font_blobs::<F, R>, (db, family, lookup, read), r),
        forall|p: &'static str, blob: Vec<u8>| !#[trigger] call_ensures(*old(read), (p,), Some(blob)),
    ensures
        r.bold@.len() <= 1 && r.italic@.len() <= 1 && r.bold_italic@.len() <= 1,
        r.bold@.len() > 0 ==> from_face(*db, *old(lookup), family@, 700, Slant::Upright, r.bold@[0]),
        r.italic@.len() > 0 ==> from_face(*db, *old(lookup), family@, 400, Slant::Italic, r.italic@[0]),
        r.bold_italic@.len() > 0 ==> from_face(*db, *old(lookup), family@, 700, Slant::Italic, r.bold_italic@[0]),
        0 <= k < r.regular@.len() ==> {
            ||| from_face(*db, *old(lookup), family@, 400, Slant::Upright, r.regular@[k])
            ||| from_face(*db, *old(lookup), "DejaVu Sans Mono"@, 400, Slant::Upright, r.regular@[k])
            ||| from_face(*db, *old(lookup), "monospace"@, 400, Slant::Upright, r.regular@[k])
            ||| from_face(*db, *old(lookup), "DejaVu Sans"@, 400, Slant::Upright, r.regular@[k])
            ||| from_face(*db, *old(lookup), "Noto Sans Symbols2"@, 400, Slant::Upright, r.regular@[k])
            ||| from_face(*db, *old(lookup), "FreeMono"@, 400, Slant::Upright, r.regular@[k])
        },
{
    let primary = choose|primary: Option<Vec<u8>>| #[trigger]
        crate::fonts::primary_face(*db, *old(lookup), family@, primary) && crate::fonts::fonts_with(
            *db,
            *old(lookup),
            *old(read),
            family@,
            primary,
            r,
        );
    lemma_nothing_read(*old(read), r);
    lemma_single(*db, *old(lookup), family@, 700, Slant::Upright, r.bold@);
    lemma_single(*db, *old(lookup), family@, 400, Slant::Italic, r.italic@);
    lemma_single(*db, *old(lookup), family@, 700, Slant::Italic, r.bold_italic@);
    if 0 <= k < r.regular@.len() {
        let (a, b, c) = choose|a: Option<Vec<u8>>, b: Option<Vec<u8>>, c: Option<Vec<u8>>|
            {
                &&& #[trigger] face_read(*db, *old(lookup), crate::fonts::coverage_families()[0]@, 400, Slant::Upright, a)
                &&& #[trigger] face_read(*db, *old(lookup), crate::fonts::coverage_families()[1]@, 400, Slant::Upright, b)
                &&& #[trigger] face_read(*db, *old(lookup), crate::fonts::coverage_families()[2]@, 400, Slant::Upright, c)
                &&& r.regular@ == present(seq![primary, a, b, c])
            };
        let given = seq![primary, a, b, c];
        lemma_present(given, k);
        let i = choose|i: int| 0 <= i < given.len() && #[trigger] given[i] == Some(present(given)[k]);
        assert(i == 0 || i == 1 || i == 2 || i == 3);
    }
}

proof fn lemma_nothing_read<R: FnMut(&'static str) -> Option<Vec<u8>>>(read: R, r: FontBlobs)
    requires
        forall|p: &'static str, blob: Vec<u8>| !#[trigger] call_ensures(read, (p,), Some(blob)),
    ensures
        !crate::fonts::from_usual_places(read, Some(r)),
{
    if crate::fonts::from_usual_places(read, Some(r)) {
        let paths = crate::fonts::font_paths(false, false);
        let answers = choose|answers: Seq<Option<Vec<u8>>>| #[trigger]
            crate::fonts::read_from(read, paths, answers) && crate::fonts::primary_among(answers);
        let i = choose|i: int| 0 <= i < 6 && i < answers.len() && (#[trigger] answers[i]) is Some;
        assert(call_ensures(read, (paths[i],), Some(answers[i]->0)));
    }
}

proof fn lemma_single<F: FnMut(fontdb::ID) -> Option<Vec<u8>>>(
    db: fontdb::Database,
    lookup: F,
    family: Seq<char>,
    weight: u16,
    slant: Slant,
    chain: Seq<Vec<u8>>,
)
    requires
        crate::fonts::single_face(db, lookup, family, weight, slant, chain),
    ensures
        chain.len() <= 1,
        chain.len() > 0 ==> from_face(db, lookup, family, weight, slant, chain[0]),
{
    let a = choose|a: Option<Vec<u8>>| #[trigger]
        face_read(db, lookup, family, weight, slant, a) && chain == present(seq![a]);
    reveal_with_fuel(present, 3);
    assert(seq![a].drop_last() =~= Seq::empty());
}

} // verus!
