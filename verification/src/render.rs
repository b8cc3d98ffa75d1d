//! The fonts that text is drawn with, and the atlas that its glyphs are packed into.
//!
//! A style's fonts form a chain: the first that has a glyph draws it, and the regular
//! chain stands behind the others. Rasterised glyphs are packed into one square
//! texture in shelves, left to right and top to bottom.
use crate::font_file::{can_be_parsed, parsable, trim, trimmed};
use std::collections::HashMap;
use vstd::prelude::*;
use vstd::string::*;

verus! {

broadcast use {vstd::string::group_string_axioms, vstd::std_specs::hash::group_hash_axioms};

/// The font byte blobs for each weight and style. Each is a fallback chain, the first
/// entry preferred. Any but `regular` may be empty.
#[derive(Debug, Default)]
pub struct FontBlobs {
    pub regular: Vec<Vec<u8>>,
    pub bold: Vec<Vec<u8>>,
    pub italic: Vec<Vec<u8>>,
    pub bold_italic: Vec<Vec<u8>>,
}

/// A parsed font of the `fontdue` crate.
#[verifier::external_type_specification]
#[verifier::external_body]
pub struct ExFont(fontdue::Font);

/// The glyphs a parsed font has: which character is drawn by the glyph of which number.
pub uninterp spec fn glyph_map(font: fontdue::Font) -> Map<char, u16>;

/// What `fontdue::Font::from_bytes` makes of a blob under its default settings: the
/// glyph map of a font, or the reason it refuses the blob for.
pub uninterp spec fn parsed(blob: Seq<u8>) -> Result<Map<char, u16>, Seq<char>>;

/// Parses a blob with `fontdue::Font::from_bytes` and its default settings. The outcome
/// depends on the bytes alone, and is named [`parsed`]. On a file that is not [`parsable`]
/// the function may stop the program or never come back: it decodes a damaged name past
/// its end, adds up counts that do not fit, and follows substitutions in circles.
#[verifier::external_body]
fn parse_font(blob: &Vec<u8>) -> (r: Result<fontdue::Font, &'static str>)
    requires
        parsable(blob@),
    ensures
        match r {
            Ok(font) => parsed(blob@) == Ok::<Map<char, u16>, Seq<char>>(glyph_map(font)),
            Err(e) => parsed(blob@) == Err::<Map<char, u16>, Seq<char>>(e@),
        },
{
    fontdue::Font::from_bytes(blob.as_slice(), fontdue::FontSettings::default())
}

/// What a blob is read as: what the tables that text needs are parsed into, where they can
/// be. Text is drawn character by character, each by its own outline.
pub open spec fn read_as(blob: Seq<u8>) -> Result<Map<char, u16>, Seq<char>> {
    if parsable(trimmed(blob)) {
        parsed(trimmed(blob))
    } else {
        Err("The file is damaged, or its outlines are not TrueType."@)
    }
}

/// Reads a blob as a font, where it can be parsed.
pub fn read_font(blob: &Vec<u8>) -> (r: Result<fontdue::Font, &'static str>)
    ensures
        match r {
            Ok(font) => read_as(blob@) == Ok::<Map<char, u16>, Seq<char>>(glyph_map(font)),
            Err(e) => read_as(blob@) == Err::<Map<char, u16>, Seq<char>>(e@),
        },
{
    let file: Vec<u8> = trim(blob);
    if can_be_parsed(&file) {
        parse_font(&file)
    } else {
        Err("The file is damaged, or its outlines are not TrueType.")
    }
}

/// The number of the glyph for `c`: zero, where the font has none.
pub open spec fn glyph_number(glyphs: Map<char, u16>, c: char) -> u16 {
    if glyphs.dom().contains(c) {
        glyphs[c]
    } else {
        0
    }
}

/// `fontdue::Font::lookup_glyph_index` looks a character up in the font's glyph map,
/// and returns zero for one that the map does not hold.
pub assume_specification[ fontdue::Font::lookup_glyph_index ](font: &fontdue::Font, character: char) -> (r: u16)
    ensures
        r == glyph_number(glyph_map(*font), character),
;

/// Why the fonts cannot be used.
#[derive(Debug, Clone)]
pub enum FontError {
    /// The first font of the regular chain cannot be read, for this reason.
    Primary(String),
    /// The regular chain holds no font at all.
    NoPrimary,
}

impl FontError {
    /// The error in words.
    pub fn message(&self) -> (r: String)
        ensures
            r@ == match self {
                FontError::Primary(e) => "primary font parse failed: "@ + e@,
                FontError::NoPrimary => "no usable primary font"@,
            },
    {
        match self {
            FontError::Primary(e) => "primary font parse failed: ".to_string().concat(e.as_str()),
            FontError::NoPrimary => "no usable primary font".to_string(),
        }
    }
}

/// The glyph maps of the fonts among `blobs` that can be read, in order.
pub open spec fn readable(blobs: Seq<Vec<u8>>) -> Seq<Map<char, u16>>
    decreases blobs.len(),
{
    if blobs.len() == 0 {
        Seq::empty()
    } else {
        match read_as(blobs.last()@) {
            Ok(glyphs) => readable(blobs.drop_last()).push(glyphs),
            Err(_) => readable(blobs.drop_last()),
        }
    }
}

/// The glyph maps of parsed fonts.
pub open spec fn glyph_maps(fonts: Seq<fontdue::Font>) -> Seq<Map<char, u16>> {
    Seq::new(fonts.len(), |i: int| glyph_map(fonts[i]))
}

/// What a chain of blobs parses into, `primary_required` saying whether the first must
/// be readable.
pub open spec fn chain_outcome(blobs: Seq<Vec<u8>>, primary_required: bool) -> Result<
    Seq<Map<char, u16>>,
    Seq<char>,
> {
    if primary_required && blobs.len() > 0 && read_as(blobs[0]@) is Err {
        Err(read_as(blobs[0]@)->Err_0)
    } else {
        Ok(readable(blobs))
    }
}

/// The fonts among the results of parsing, in order.
pub open spec fn fonts_among(results: Seq<Result<fontdue::Font, &'static str>>) -> Seq<fontdue::Font>
    decreases results.len(),
{
    if results.len() == 0 {
        Seq::empty()
    } else {
        match results.last() {
            Ok(font) => fonts_among(results.drop_last()).push(font),
            Err(_) => fonts_among(results.drop_last()),
        }
    }
}

/// The fonts of a chain, given what parsing made of each of its blobs: those that could be
/// read, in order. Where `primary_required`, the first must be among them.
pub fn usable_chain(results: Vec<Result<fontdue::Font, &'static str>>, primary_required: bool) -> (r: Result<
    Vec<fontdue::Font>,
    FontError,
>)
    ensures
        if primary_required && results@.len() > 0 && results@[0] is Err {
            r is Err && r->Err_0 is Primary && r->Err_0->Primary_0@ == results@[0]->Err_0@
        } else {
            r is Ok && r->Ok_0@ == fonts_among(results@)
        },
{
    if primary_required && results.len() > 0 {
        if let Err(e) = &results[0] {
            let words: &'static str = *e;
            return Err(FontError::Primary(words.to_string()));
        }
    }
    let ghost all = results@;
    let mut out: Vec<fontdue::Font> = Vec::new();
    assert(out@ =~= fonts_among(all.take(0)));
    for result in it: results
        invariant
            it.seq() == all,
            out@ == fonts_among(all.take(it.index() as int)),
    {
        assert(all.take(it.index() + 1).drop_last() =~= all.take(it.index() as int));
        if let Ok(font) = result {
            out.push(font);
        }
    }
    assert(all.take(all.len() as int) =~= all);
    Ok(out)
}

proof fn lemma_readable(blobs: Seq<Vec<u8>>, results: Seq<Result<fontdue::Font, &'static str>>)
    requires
        results.len() == blobs.len(),
        forall|i: int|
            #![trigger results[i]]
            0 <= i < blobs.len() ==> match results[i] {
                Ok(font) => read_as(blobs[i]@) == Ok::<Map<char, u16>, Seq<char>>(glyph_map(font)),
                Err(e) => read_as(blobs[i]@) == Err::<Map<char, u16>, Seq<char>>(e@),
            },
    ensures
        glyph_maps(fonts_among(results)) == readable(blobs),
    decreases blobs.len(),
{
    if blobs.len() > 0 {
        assert forall|i: int|
            #![trigger results.drop_last()[i]]
            0 <= i < blobs.drop_last().len() implies match results.drop_last()[i] {
            Ok(font) => read_as(blobs.drop_last()[i]@) == Ok::<Map<char, u16>, Seq<char>>(glyph_map(font)),
            Err(e) => read_as(blobs.drop_last()[i]@) == Err::<Map<char, u16>, Seq<char>>(e@),
        } by {
            assert(results[i] == results.drop_last()[i]);
        }
        lemma_readable(blobs.drop_last(), results.drop_last());
        let last = results[results.len() - 1];
        if let Ok(font) = last {
            assert(glyph_maps(fonts_among(results)) =~= glyph_maps(fonts_among(results.drop_last())).push(
                glyph_map(font),
            ));
        }
    } else {
        assert(glyph_maps(fonts_among(results)) =~= readable(blobs));
    }
}

/// Parse a chain of blobs, skipping those that cannot be read. Where
/// `primary_required`, the first must be.
pub fn parse_chain(blobs: &Vec<Vec<u8>>, primary_required: bool) -> (r: Result<
    Vec<fontdue::Font>,
    FontError,
>)
    ensures
        match r {
            Ok(fonts) => chain_outcome(blobs@, primary_required) == Ok::<
                Seq<Map<char, u16>>,
                Seq<char>,
            >(glyph_maps(fonts@)),
            Err(e) => e is Primary && chain_outcome(blobs@, primary_required) == Err::<
                Seq<Map<char, u16>>,
                Seq<char>,
            >(e->Primary_0@),
        },
{
    let mut results: Vec<Result<fontdue::Font, &'static str>> = Vec::new();
    let mut i: usize = 0;
    while i < blobs.len()
        invariant
            i <= blobs@.len(),
            results@.len() == i,
            forall|k: int|
                #![trigger results@[k]]
                0 <= k < i ==> match results@[k] {
                    Ok(font) => read_as(blobs@[k]@) == Ok::<Map<char, u16>, Seq<char>>(glyph_map(font)),
                    Err(e) => read_as(blobs@[k]@) == Err::<Map<char, u16>, Seq<char>>(e@),
                },
        decreases blobs@.len() - i,
    {
        results.push(read_font(&blobs[i]));
        i = i + 1;
    }
    proof {
        lemma_readable(blobs@, results@);
        if blobs@.len() > 0 {
            assert(results@[0] == results@[0]);
        }
    }
    usable_chain(results, primary_required)
}

/// One of the four chains.
#[derive(Debug, Clone, Copy, PartialEq, Eq, Structural)]
pub enum Style {
    Regular,
    Bold,
    Italic,
    BoldItalic,
}

/// The parsed chains of the four styles.
pub struct FontSet {
    pub regular: Vec<fontdue::Font>,
    pub bold: Vec<fontdue::Font>,
    pub italic: Vec<fontdue::Font>,
    pub bold_italic: Vec<fontdue::Font>,
}

/// The glyph maps of the four chains.
pub struct FontSetModel {
    pub regular: Seq<Map<char, u16>>,
    pub bold: Seq<Map<char, u16>>,
    pub italic: Seq<Map<char, u16>>,
    pub bold_italic: Seq<Map<char, u16>>,
}

impl View for FontSet {
    type V = FontSetModel;

    open spec fn view(&self) -> FontSetModel {
        FontSetModel {
            regular: glyph_maps(self.regular@),
            bold: glyph_maps(self.bold@),
            italic: glyph_maps(self.italic@),
            bold_italic: glyph_maps(self.bold_italic@),
        }
    }
}

impl FontSetModel {
    /// The chain of a style.
    pub open spec fn chain(self, style: Style) -> Seq<Map<char, u16>> {
        match style {
            Style::Regular => self.regular,
            Style::Bold => self.bold,
            Style::Italic => self.italic,
            Style::BoldItalic => self.bold_italic,
        }
    }
}

/// The chains to look for a glyph in: the exact style first, then looser ones, and the
/// regular chain last.
pub open spec fn preferred(bold: bool, italic: bool) -> Seq<Style> {
    if bold && italic {
        seq![Style::BoldItalic, Style::Bold, Style::Italic, Style::Regular]
    } else if bold {
        seq![Style::Bold, Style::Regular]
    } else if italic {
        seq![Style::Italic, Style::Regular]
    } else {
        seq![Style::Regular]
    }
}

/// The first font of a chain that has a glyph for `c`.
pub open spec fn covering(chain: Seq<Map<char, u16>>, c: char) -> Option<int>
    decreases chain.len(),
{
    if chain.len() == 0 {
        None
    } else {
        match covering(chain.drop_last(), c) {
            Some(i) => Some(i),
            None => if glyph_number(chain.last(), c) != 0 {
                Some(chain.len() - 1)
            } else {
                None
            },
        }
    }
}

/// The font, as a style and a place in its chain, that draws `c`: the first that covers
/// it in the chains of the `styles`; where none does, the primary, which draws a blank.
pub open spec fn drawn_by(m: FontSetModel, styles: Seq<Style>, c: char) -> (Style, int)
    decreases styles.len(),
{
    if styles.len() == 0 {
        (Style::Regular, 0)
    } else {
        match covering(m.chain(styles[0]), c) {
            Some(i) => (styles[0], i),
            None => drawn_by(m, styles.skip(1), c),
        }
    }
}

/// The first of several glyph numbers that is a glyph's.
pub open spec fn first_glyph(numbers: Seq<u16>) -> Option<int>
    decreases numbers.len(),
{
    if numbers.len() == 0 {
        None
    } else {
        match first_glyph(numbers.drop_last()) {
            Some(i) => Some(i),
            None => if numbers.last() != 0 {
                Some(numbers.len() - 1)
            } else {
                None
            },
        }
    }
}

/// The font that draws a character, given the numbers of its glyphs in the chains of the
/// `styles`: the first that has one; where none does, the primary.
pub open spec fn drawn_among(styles: Seq<Style>, numbers: Seq<Vec<u16>>) -> (Style, int)
    decreases styles.len(),
{
    if styles.len() == 0 {
        (Style::Regular, 0)
    } else {
        match first_glyph(numbers[0]@) {
            Some(i) => (styles[0], i),
            None => drawn_among(styles.skip(1), numbers.skip(1)),
        }
    }
}

proof fn lemma_first_glyph_stays(numbers: Seq<u16>, n: int)
    requires
        0 <= n <= numbers.len(),
        first_glyph(numbers.take(n)) is Some,
    ensures
        first_glyph(numbers) == first_glyph(numbers.take(n)),
    decreases numbers.len() - n,
{
    if n < numbers.len() {
        assert(numbers.take(n + 1).drop_last() =~= numbers.take(n));
        lemma_first_glyph_stays(numbers, n + 1);
    } else {
        assert(numbers.take(n) =~= numbers);
    }
}

fn position_of_glyph(numbers: &Vec<u16>) -> (r: Option<usize>)
    ensures
        match r {
            Some(i) => first_glyph(numbers@) == Some(i as int) && i < numbers@.len(),
            None => first_glyph(numbers@) is None,
        },
{
    let mut i: usize = 0;
    while i < numbers.len()
        invariant
            i <= numbers@.len(),
            first_glyph(numbers@.take(i as int)) is None,
        decreases numbers@.len() - i,
    {
        assert(numbers@.take(i + 1).drop_last() =~= numbers@.take(i as int));
        if numbers[i] != 0 {
            proof {
                lemma_first_glyph_stays(numbers@, i + 1);
            }
            return Some(i);
        }
        i = i + 1;
    }
    assert(numbers@.take(i as int) =~= numbers@);
    None
}

/// Which font draws a character, given the numbers of its glyphs in the chains of the
/// `styles`, in order: the first that has one; where none does, the primary.
pub fn first_drawing(styles: &Vec<Style>, numbers: &Vec<Vec<u16>>) -> (r: (Style, usize))
    requires
        styles@.len() == numbers@.len(),
    ensures
        (r.0, r.1 as int) == drawn_among(styles@, numbers@),
        r == (Style::Regular, 0usize) || exists|k: int|
            0 <= k < styles@.len() && styles@[k] == r.0 && r.1 < (#[trigger] numbers@[k])@.len(),
{
    let mut k: usize = 0;
    assert(styles@.skip(0) =~= styles@);
    assert(numbers@.skip(0) =~= numbers@);
    while k < styles.len()
        invariant
            k <= styles@.len() == numbers@.len(),
            drawn_among(styles@.skip(k as int), numbers@.skip(k as int)) == drawn_among(styles@, numbers@),
        decreases styles@.len() - k,
    {
        if let Some(i) = position_of_glyph(&numbers[k]) {
            return (styles[k], i);
        }
        assert(styles@.skip(k as int).skip(1) =~= styles@.skip(k + 1));
        assert(numbers@.skip(k as int).skip(1) =~= numbers@.skip(k + 1));
        k = k + 1;
    }
    (Style::Regular, 0)
}

/// The numbers of a character's glyphs in the fonts of a chain.
pub open spec fn numbers_in(chain: Seq<Map<char, u16>>, c: char) -> Seq<u16> {
    Seq::new(chain.len(), |i: int| glyph_number(chain[i], c))
}

proof fn lemma_covering(chain: Seq<Map<char, u16>>, c: char)
    ensures
        covering(chain, c) == first_glyph(numbers_in(chain, c)),
    decreases chain.len(),
{
    if chain.len() > 0 {
        lemma_covering(chain.drop_last(), c);
        assert(numbers_in(chain, c).drop_last() =~= numbers_in(chain.drop_last(), c));
    }
}

proof fn lemma_drawn(m: FontSetModel, styles: Seq<Style>, numbers: Seq<Vec<u16>>, c: char)
    requires
        styles.len() == numbers.len(),
        forall|k: int|
            #![trigger numbers[k]]
            0 <= k < styles.len() ==> numbers[k]@ == numbers_in(m.chain(styles[k]), c),
    ensures
        drawn_by(m, styles, c) == drawn_among(styles, numbers),
    decreases styles.len(),
{
    if styles.len() > 0 {
        assert(numbers[0]@ == numbers_in(m.chain(styles[0]), c));
        lemma_covering(m.chain(styles[0]), c);
        assert forall|k: int| #![trigger numbers.skip(1)[k]] 0 <= k < styles.skip(1).len() implies numbers.skip(
            1,
        )[k]@ == numbers_in(m.chain(styles.skip(1)[k]), c) by {
            assert(numbers[k + 1]@ == numbers_in(m.chain(styles[k + 1]), c));
        }
        lemma_drawn(m, styles.skip(1), numbers.skip(1), c);
    }
}

fn glyph_numbers(chain: &Vec<fontdue::Font>, c: char) -> (r: Vec<u16>)
    ensures
        r@ == numbers_in(glyph_maps(chain@), c),
{
    let mut out: Vec<u16> = Vec::new();
    let mut i: usize = 0;
    while i < chain.len()
        invariant
            i <= chain@.len(),
            out@.len() == i,
            forall|k: int| 0 <= k < i ==> #[trigger] out@[k] == glyph_number(glyph_map(chain@[k]), c),
        decreases chain@.len() - i,
    {
        out.push(chain[i].lookup_glyph_index(c));
        i = i + 1;
    }
    assert(out@ =~= numbers_in(glyph_maps(chain@), c));
    out
}

impl FontSet {
    /// The fonts of a style's chain.
    pub open spec fn fonts_of(&self, style: Style) -> Seq<fontdue::Font> {
        match style {
            Style::Regular => self.regular@,
            Style::Bold => self.bold@,
            Style::Italic => self.italic@,
            Style::BoldItalic => self.bold_italic@,
        }
    }

    /// The chain of a style.
    fn chain(&self, style: Style) -> (r: &Vec<fontdue::Font>)
        ensures
            r@ == self.fonts_of(style),
            glyph_maps(r@) == self@.chain(style),
    {
        match style {
            Style::Regular => &self.regular,
            Style::Bold => &self.bold,
            Style::Italic => &self.italic,
            Style::BoldItalic => &self.bold_italic,
        }
    }

    /// Parse the four chains. Only the regular one must have a font, and its first
    /// must be readable.
    pub fn parse(blobs: &FontBlobs) -> (r: Result<FontSet, FontError>)
        ensures
            match chain_outcome(blobs.regular@, true) {
                Err(e) => r is Err && r->Err_0 is Primary && r->Err_0->Primary_0@ == e,
                Ok(regular) => if regular.len() == 0 {
                    r is Err && r->Err_0 is NoPrimary
                } else {
                    r is Ok && r->Ok_0@ == (FontSetModel {
                        regular,
                        bold: readable(blobs.bold@),
                        italic: readable(blobs.italic@),
                        bold_italic: readable(blobs.bold_italic@),
                    })
                },
            },
    {
        let regular: Vec<fontdue::Font> = match parse_chain(&blobs.regular, true) {
            Ok(fonts) => fonts,
            Err(e) => return Err(e),
        };
        if regular.len() == 0 {
            return Err(FontError::NoPrimary);
        }
        let bold: Vec<fontdue::Font> = match parse_chain(&blobs.bold, false) {
            Ok(fonts) => fonts,
            Err(e) => return Err(e),
        };
        let italic: Vec<fontdue::Font> = match parse_chain(&blobs.italic, false) {
            Ok(fonts) => fonts,
            Err(e) => return Err(e),
        };
        let bold_italic: Vec<fontdue::Font> = match parse_chain(&blobs.bold_italic, false) {
            Ok(fonts) => fonts,
            Err(e) => return Err(e),
        };
        Ok(FontSet { regular, bold, italic, bold_italic })
    }

    /// Which font draws `c` in a style: the first that covers it, in the exact style's
    /// chain, then in looser ones; where none does, the primary, which draws a blank.
    pub fn font_for(&self, c: char, bold: bool, italic: bool) -> (r: (Style, usize))
        ensures
            (r.0, r.1 as int) == drawn_by(self@, preferred(bold, italic), c),
            self@.regular.len() > 0 ==> r.1 < self@.chain(r.0).len(),
    {
        let styles: Vec<Style> = if bold && italic {
            vec![Style::BoldItalic, Style::Bold, Style::Italic, Style::Regular]
        } else if bold {
            vec![Style::Bold, Style::Regular]
        } else if italic {
            vec![Style::Italic, Style::Regular]
        } else {
            vec![Style::Regular]
        };
        assert(styles@ =~= preferred(bold, italic));
        let mut numbers: Vec<Vec<u16>> = Vec::new();
        let mut k: usize = 0;
        while k < styles.len()
            invariant
                k <= styles@.len(),
                numbers@.len() == k,
                forall|j: int|
                    #![trigger numbers@[j]]
                    0 <= j < k ==> numbers@[j]@ == numbers_in(self@.chain(styles@[j]), c),
            decreases styles@.len() - k,
        {
            numbers.push(glyph_numbers(self.chain(styles[k]), c));
            k = k + 1;
        }
        proof {
            lemma_drawn(self@, styles@, numbers@, c);
        }
        first_drawing(&styles, &numbers)
    }

    /// The font at a place in a style's chain.
    pub fn font(&self, style: Style, i: usize) -> (r: &fontdue::Font)
        requires
            i < self@.chain(style).len(),
        ensures
            *r == self.fonts_of(style)[i as int],
            glyph_map(*r) == self@.chain(style)[i as int],
    {
        &self.chain(style)[i]
    }
}

/// The side of the square atlas, in texels.
pub const ATLAS: i32 = 1024;

/// Where the shelves begin: the first texels hold the opaque one that solid quads are
/// drawn with.
pub const MARGIN: i32 = 2;

/// Where a rasterised glyph lives in the atlas, and how it is placed on the baseline. A
/// blank has no size and no place.
#[derive(Debug, Clone, Copy, PartialEq, Eq, Structural)]
pub struct Glyph {
    pub x: i32,
    pub y: i32,
    pub w: i32,
    pub h: i32,
    /// From the pen to the bitmap's left edge.
    pub left: i32,
    /// From the baseline up to the bitmap's top edge.
    pub top: i32,
}

/// The measures of a rasterised glyph.
#[derive(Debug, Clone, Copy)]
pub struct Bitmap {
    pub width: usize,
    pub height: usize,
    pub xmin: i32,
    pub ymin: i32,
}

/// The glyphs packed so far, by character and style, and where the next one goes.
pub struct Atlas {
    glyphs: HashMap<u64, Glyph>,
    shelf_x: i32,
    shelf_y: i32,
    shelf_h: i32,
}

/// The number under which a glyph is kept.
pub open spec fn glyph_key(c: char, bold: bool, italic: bool) -> u64 {
    (c as u64 * 4 + (if bold {
        2int
    } else {
        0
    }) + (if italic {
        1int
    } else {
        0
    })) as u64
}

fn key_of(c: char, bold: bool, italic: bool) -> (r: u64)
    ensures
        r == glyph_key(c, bold, italic),
{
    let n: u64 = c as u32 as u64;
    n * 4 + (if bold {
        2u64
    } else {
        0u64
    }) + (if italic {
        1u64
    } else {
        0u64
    })
}

/// Whether two glyphs share no texel.
pub open spec fn disjoint(a: Glyph, b: Glyph) -> bool {
    a.x + a.w <= b.x || b.x + b.w <= a.x || a.y + a.h <= b.y || b.y + b.h <= a.y
}

/// Whether a glyph lies in the part of the atlas that shelves may fill.
pub open spec fn inside(g: Glyph) -> bool {
    MARGIN <= g.x && g.x + g.w < ATLAS && MARGIN <= g.y && g.y + g.h < ATLAS
}

/// A blank: a glyph without texels.
pub open spec fn blank() -> Glyph {
    Glyph { x: 0, y: 0, w: 0, h: 0, left: 0, top: 0 }
}

/// What an atlas knows of a glyph: nothing yet, that there is nothing to draw, or where
/// it lies.
#[derive(Debug, Clone, Copy, PartialEq, Eq, Structural)]
pub enum Cached {
    Unseen,
    Blank,
    Placed(Glyph),
}

/// What is known of the glyph kept under a number.
pub open spec fn cached(packed: Map<u64, Glyph>, key: u64) -> Cached {
    if !packed.dom().contains(key) {
        Cached::Unseen
    } else if packed[key] == blank() {
        Cached::Blank
    } else {
        Cached::Placed(packed[key])
    }
}

/// Where the next glyph goes, and how tall the shelf is.
#[derive(Debug, Clone, Copy, PartialEq, Eq, Structural)]
pub struct Cursor {
    pub x: i32,
    pub y: i32,
    pub h: i32,
}

/// The cursor of an empty atlas.
pub open spec fn first_cursor() -> Cursor {
    Cursor { x: MARGIN, y: MARGIN, h: 0 }
}

/// The cursor at which a glyph of width `w` would be packed: below the shelf, where it
/// has no room on it.
pub open spec fn turned(cur: Cursor, w: int) -> Cursor {
    if cur.x + w + 1 >= ATLAS {
        Cursor { x: MARGIN, y: (cur.y + cur.h + 1) as i32, h: 0 }
    } else {
        cur
    }
}

/// Whether a bitmap of this size has room in the atlas: no wider than a shelf, and no
/// taller than what is left below the cursor.
pub open spec fn has_room(cur: Cursor, w: int, h: int) -> bool {
    MARGIN + w + 1 < ATLAS && turned(cur, w).y + h + 1 < ATLAS
}

/// The cursor after a glyph of this size was packed, or was refused for want of room.
pub open spec fn advanced(cur: Cursor, w: int, h: int) -> Cursor {
    if MARGIN + w + 1 >= ATLAS {
        cur
    } else if has_room(cur, w, h) {
        let at = turned(cur, w);
        Cursor {
            x: (at.x + w + 1) as i32,
            y: at.y,
            h: if h > at.h {
                h as i32
            } else {
                at.h
            },
        }
    } else {
        turned(cur, w)
    }
}

/// The glyph that a bitmap becomes when it is packed.
pub open spec fn glyph_at(cur: Cursor, b: Bitmap) -> Glyph {
    let at = turned(cur, b.width as int);
    Glyph {
        x: at.x,
        y: at.y,
        w: b.width as i32,
        h: b.height as i32,
        left: b.xmin,
        top: (b.ymin + b.height) as i32,
    }
}

impl Atlas {
    /// The glyphs packed so far.
    pub closed spec fn packed(&self) -> Map<u64, Glyph> {
        self.glyphs@
    }

    /// Where the next glyph goes.
    pub closed spec fn cursor(&self) -> Cursor {
        Cursor { x: self.shelf_x, y: self.shelf_y, h: self.shelf_h }
    }

    /// Whether a packed glyph lies behind the cursor: on a shelf above, or to the left
    /// on this one.
    closed spec fn behind(&self, g: Glyph) -> bool {
        ||| g.y + g.h < self.shelf_y
        ||| g.y == self.shelf_y && g.x + g.w < self.shelf_x && g.h <= self.shelf_h
    }

    /// What holds of every atlas: its glyphs lie inside it, behind the cursor, and no
    /// two of them share a texel.
    pub closed spec fn wf(&self) -> bool {
        &&& MARGIN <= self.shelf_x < ATLAS
        &&& MARGIN <= self.shelf_y
        &&& 0 <= self.shelf_h
        &&& self.shelf_y < ATLAS
        &&& self.shelf_h > 0 ==> self.shelf_y + self.shelf_h + 1 < ATLAS
        &&& self.shelf_h == 0 ==> self.shelf_x == MARGIN
        &&& forall|k: u64|
            #![trigger self.glyphs@[k]]
            self.glyphs@.dom().contains(k) && self.glyphs@[k] != blank() ==> {
                &&& self.glyphs@[k].w > 0
                &&& self.glyphs@[k].h > 0
                &&& inside(self.glyphs@[k])
                &&& self.behind(self.glyphs@[k])
            }
        &&& forall|j: u64, k: u64|
            #![trigger self.glyphs@[j], self.glyphs@[k]]
            self.glyphs@.dom().contains(j) && self.glyphs@.dom().contains(k) && j != k && self.glyphs@[j]
                != blank() && self.glyphs@[k] != blank() ==> disjoint(self.glyphs@[j], self.glyphs@[k])
    }

    /// The cursor and its shelf lie in the atlas.
    pub(crate) proof fn lemma_cursor_inside(&self)
        requires
            self.wf(),
        ensures
            MARGIN <= self.cursor().x < ATLAS,
            MARGIN <= self.cursor().y < ATLAS,
            0 <= self.cursor().h,
            self.cursor().y + self.cursor().h < ATLAS,
    {
    }

    /// An atlas without glyphs.
    pub fn new() -> (r: Atlas)
        ensures
            r.wf(),
            r.packed() == Map::<u64, Glyph>::empty(),
            r.cursor() == first_cursor(),
    {
        Atlas { glyphs: HashMap::new(), shelf_x: MARGIN, shelf_y: MARGIN, shelf_h: 0 }
    }

    /// Forgets every glyph: the fonts have changed.
    pub fn clear(&mut self)
        ensures
            final(self).wf(),
            final(self).packed() == Map::<u64, Glyph>::empty(),
            final(self).cursor() == first_cursor(),
    {
        self.glyphs.clear();
        self.shelf_x = MARGIN;
        self.shelf_y = MARGIN;
        self.shelf_h = 0;
    }

    /// What the atlas knows of a character in a style. No glyph is rasterised twice, and
    /// one without texels is drawn neither the first time nor later.
    pub fn lookup(&self, c: char, bold: bool, italic: bool) -> (r: Cached)
        ensures
            r == cached(self.packed(), glyph_key(c, bold, italic)),
    {
        let key: u64 = key_of(c, bold, italic);
        match self.glyphs.get(&key) {
            Some(g) => if g.x == 0 && g.y == 0 && g.w == 0 && g.h == 0 && g.left == 0 && g.top == 0 {
                Cached::Blank
            } else {
                Cached::Placed(*g)
            },
            None => Cached::Unseen,
        }
    }

    /// Packs the bitmap of a character in a style, and says where it must be uploaded.
    ///
    /// A bitmap without texels is remembered as a blank and goes nowhere; one that has
    /// no room is not remembered, and draws nothing.
    pub fn pack(&mut self, c: char, bold: bool, italic: bool, bitmap: Bitmap) -> (r: Option<Glyph>)
        requires
            old(self).wf(),
            bitmap.ymin + bitmap.height <= i32::MAX,
        ensures
            final(self).wf(),
            ({
                let key = glyph_key(c, bold, italic);
                let cur = old(self).cursor();
                let w = bitmap.width as int;
                let h = bitmap.height as int;
                if w == 0 || h == 0 {
                    &&& r is None
                    &&& final(self).cursor() == cur
                    &&& final(self).packed() == old(self).packed().insert(key, blank())
                } else if has_room(cur, w, h) {
                    &&& r == Some(glyph_at(cur, bitmap))
                    &&& final(self).cursor() == advanced(cur, w, h)
                    &&& final(self).packed() == old(self).packed().insert(key, glyph_at(cur, bitmap))
                } else {
                    &&& r is None
                    &&& final(self).cursor() == advanced(cur, w, h)
                    &&& final(self).packed() == old(self).packed()
                }
            }),
    {
        let key: u64 = key_of(c, bold, italic);
        if bitmap.width == 0 || bitmap.height == 0 {
            let none: Glyph = Glyph { x: 0, y: 0, w: 0, h: 0, left: 0, top: 0 };
            self.glyphs.insert(key, none);
            return None;
        }
        if bitmap.width >= 1021 {
            return None;
        }
        let gw: i32 = bitmap.width as i32;
        if self.shelf_x + gw + 1 >= ATLAS {
            self.shelf_y = self.shelf_y + self.shelf_h + 1;
            self.shelf_x = MARGIN;
            self.shelf_h = 0;
        }
        if bitmap.height >= 1021 {
            return None;
        }
        let gh: i32 = bitmap.height as i32;
        if self.shelf_y + gh + 1 >= ATLAS {
            return None;
        }
        let g: Glyph = Glyph {
            x: self.shelf_x,
            y: self.shelf_y,
            w: gw,
            h: gh,
            left: bitmap.xmin,
            top: bitmap.ymin + gh,
        };
        self.shelf_x = self.shelf_x + gw + 1;
        if gh > self.shelf_h {
            self.shelf_h = gh;
        }
        self.glyphs.insert(key, g);
        Some(g)
    }
}

/// No two glyphs of an atlas share a texel, and all of them lie inside it, clear of the
/// texel that solid quads are drawn with.
pub proof fn packed_glyphs_never_overlap(atlas: Atlas, j: u64, k: u64)
    requires
        atlas.wf(),
        atlas.packed().dom().contains(j),
        atlas.packed().dom().contains(k),
        j != k,
        atlas.packed()[j] != blank(),
        atlas.packed()[k] != blank(),
    ensures
        disjoint(atlas.packed()[j], atlas.packed()[k]),
        inside(atlas.packed()[j]),
        inside(atlas.packed()[k]),
{
    let a = atlas.glyphs@[j];
    let b = atlas.glyphs@[k];
}

/// A glyph that was packed is found where it was put, and one without texels is known to
/// be blank; nothing else changes. `before` is what
/// is packed before [`Atlas::pack`].
pub proof fn a_packed_glyph_is_found(before: Map<u64, Glyph>, cur: Cursor, key: u64, other: u64, bitmap: Bitmap)
    requires
        other != key,
    ensures
        cached(before.insert(key, blank()), key) == Cached::Blank,
        bitmap.width > 0 && has_room(cur, bitmap.width as int, bitmap.height as int) ==> cached(
            before.insert(key, glyph_at(cur, bitmap)),
            key,
        ) == Cached::Placed(glyph_at(cur, bitmap)),
        forall|g: Glyph| #[trigger] cached(before.insert(key, g), other) == cached(before, other),
{
}

/// Two characters, or one in two styles, never share a place in the cache.
pub proof fn every_glyph_has_its_own_key(c: char, b: bool, i: bool, d: char, e: bool, f: bool)
    requires
        glyph_key(c, b, i) == glyph_key(d, e, f),
    ensures
        c == d,
        b == e,
        i == f,
{
    assert((c as u32) == (d as u32));
}

} // verus!
