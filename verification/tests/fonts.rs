use std::cell::RefCell;
use std::sync::Arc;

use fontdb::{Database, FaceInfo, Language, Source, Stretch, Style as Slanted, Weight, ID};
use rt::font_file::{can_be_parsed, trim};
use rt::fonts::{
    face_data, families_among, font_blobs, load_fonts, monospace_families, regular_of, Slant,
    BOLD_WEIGHT, NORMAL_WEIGHT,
};
use rt::render::{
    first_drawing, parse_chain, read_font, usable_chain, Atlas, Bitmap, Cached, FontBlobs, FontError,
    FontSet, Glyph, Style,
};

/// A font of two glyphs that draws one character, and that one blank, with the tables
/// given behind those it needs.
fn font_with(drawn: char, more: Vec<(&'static [u8; 4], Vec<u8>)>) -> Vec<u8> {
    let mut cmap: Vec<u8> = Vec::new();
    cmap.extend([0, 0, 0, 1, 0, 3, 0, 10, 0, 0, 0, 12]);
    cmap.extend([0, 12, 0, 0, 0, 0, 0, 28, 0, 0, 0, 0, 0, 0, 0, 1]);
    cmap.extend((drawn as u32).to_be_bytes());
    cmap.extend((drawn as u32).to_be_bytes());
    cmap.extend([0, 0, 0, 1]);
    let mut head = vec![0u8; 54];
    head[1] = 1;
    head[12..16].copy_from_slice(&[0x5f, 0x0f, 0x3c, 0xf5]);
    head[18..20].copy_from_slice(&1000u16.to_be_bytes());
    let mut hhea = vec![0u8; 36];
    hhea[1] = 1;
    let maxp: Vec<u8> = vec![0, 0, 0x50, 0, 0, 2];
    let mut tables: Vec<(&[u8; 4], Vec<u8>)> =
        vec![(b"cmap", cmap), (b"head", head), (b"hhea", hhea), (b"maxp", maxp)];
    tables.extend(more);
    let mut out: Vec<u8> = vec![0, 1, 0, 0, 0, tables.len() as u8, 0, 0, 0, 0, 0, 0];
    let mut at = 12 + 16 * tables.len() as u32;
    for (tag, data) in &tables {
        out.extend(*tag);
        out.extend([0, 0, 0, 0]);
        out.extend(at.to_be_bytes());
        out.extend((data.len() as u32).to_be_bytes());
        at += data.len() as u32;
    }
    for (_, data) in &tables {
        out.extend(data);
    }
    out
}

fn tiny_font(drawn: char) -> Vec<u8> {
    font_with(drawn, vec![])
}

fn named_font(drawn: char, names: Vec<u8>) -> Vec<u8> {
    font_with(drawn, vec![(b"name", names)])
}

/// A table of names, each given by platform, encoding, number and text.
fn name_table(names: &[(u8, u8, u8, &[u8])]) -> Vec<u8> {
    let mut out: Vec<u8> = vec![0, 0, 0, names.len() as u8, 0, 6 + 12 * names.len() as u8];
    let mut at: u8 = 0;
    for (platform, encoding, number, text) in names {
        let length = text.len() as u8;
        out.extend([0, *platform, 0, *encoding, 0, 0, 0, *number, 0, length, 0, at]);
        at += length;
    }
    for (_, _, _, text) in names {
        out.extend(*text);
    }
    out
}

/// Whether a font with this full name is read.
fn reads_name(text: &[u8]) -> bool {
    let font = named_font('A', name_table(&[(3, 1, 4, text)]));
    let sound = can_be_parsed(&font);
    assert_eq!(read_font(&font).is_ok(), sound);
    sound
}

#[test]
fn a_full_name_must_be_whole_utf16() {
    assert!(reads_name(b""));
    assert!(reads_name(&[0, b'r', 0, b't']));
    assert!(reads_name(&[0xd8, 0x3d, 0xde, 0x00]), "a pair of surrogates");
    assert!(reads_name(&[0, b'r', 0xdb, 0xff, 0xdf, 0xff, 0xe0, 0x00]));
    assert!(!reads_name(&[0, b'r', 0]), "half a unit");
    assert!(!reads_name(&[0xd8, 0x3d]), "half a pair");
    assert!(!reads_name(&[0xd8, 0x3d, 0, b'r']));
    assert!(!reads_name(&[0xd8, 0x3d, 0xd8, 0x3d]));
    assert!(!reads_name(&[0xde, 0x00, 0xd8, 0x3d]), "a pair the wrong way round");
}

#[test]
fn only_the_first_full_name_in_utf16_counts() {
    let reads = |names: Vec<u8>| {
        let font = named_font('A', names);
        let sound = can_be_parsed(&font);
        assert_eq!(read_font(&font).is_ok(), sound);
        sound
    };
    assert!(reads(name_table(&[(3, 1, 4, b"\0r"), (3, 1, 4, b"r")])));
    assert!(!reads(name_table(&[(3, 1, 4, b"r"), (3, 1, 4, b"\0r")])));
    assert!(reads(name_table(&[(3, 1, 1, b"r")])), "another name");
    assert!(reads(name_table(&[(1, 0, 4, b"r")])), "another platform");
    assert!(reads(name_table(&[(3, 2, 4, b"r")])), "another encoding");
    assert!(!reads(name_table(&[(1, 0, 4, b"r"), (0, 9, 4, b"r")])));
    assert!(!reads(name_table(&[(3, 0, 4, b"r")])));
    assert!(reads(name_table(&[(5, 0, 1, b"r"), (3, 0, 4, b"r")])), "the list ends there");
    let mut version = name_table(&[(3, 1, 4, b"r")]);
    version[1] = 2;
    assert!(reads(version), "a table of no known kind");
    let mut languages = name_table(&[(3, 1, 4, b"r")]);
    languages[1] = 1;
    languages.splice(6..6, [0, 1, 0, 0, 0, 0]);
    languages[5] += 6;
    assert!(!reads(languages), "the records come behind the languages");
    let mut short = name_table(&[(3, 1, 4, b"r")]);
    short.pop();
    assert!(reads(short), "the text is not there");
    let mut inside = name_table(&[(3, 1, 4, b"r")]);
    inside[5] = 0;
    assert!(!reads(inside), "text never lies among the records");
}

#[test]
fn a_font_with_a_damaged_name_is_skipped() {
    let bad = || named_font('A', name_table(&[(0, 3, 4, b"odd")]));
    let blobs = vec![tiny_font('B'), bad(), tiny_font('A')];
    assert_eq!(parse_chain(&blobs, true).unwrap().len(), 2);
    let words = match parse_chain(&vec![bad()], true) {
        Err(e) => e.message(),
        Ok(_) => panic!("a damaged primary"),
    };
    assert_eq!(words, "primary font parse failed: The file is damaged, or its outlines are not TrueType.");
}

/// Whether a font with this table besides those it needs is read.
fn reads_with(tag: &'static [u8; 4], table: Vec<u8>) -> bool {
    let font = font_with('A', vec![(tag, table)]);
    let sound = can_be_parsed(&trim(&font));
    assert_eq!(read_font(&font).is_ok(), sound);
    sound
}

#[test]
fn outlines_must_be_truetype() {
    assert!(!reads_with(b"CFF ", vec![1, 0, 4, 1]));
    assert!(!reads_with(b"CFF2", vec![2, 0, 5]));
    assert!(reads_with(b"CFFX", vec![2, 0, 5]), "a table that is not looked at");
}

#[test]
fn tables_that_text_does_not_need_are_emptied() {
    let font = font_with('A', vec![(b"name", name_table(&[])), (b"sbix", vec![0, 1, 0, 0, 0x40, 0, 0, 0])]);
    assert!(!can_be_parsed(&font));
    let file = trim(&font);
    assert!(can_be_parsed(&file));
    let differing: Vec<usize> = (0..font.len()).filter(|i| font[*i] != file[*i]).collect();
    assert_eq!(differing, vec![12 + 16 * 5 + 15], "the length of the last table");
    assert_eq!(trim(&file), file);
    assert_eq!(trim(&b"no font".to_vec()), b"no font".to_vec());
    assert!(read_font(&font).is_ok_and(|f| f.lookup_glyph_index('A') == 1));
}

#[test]
fn counts_that_do_not_fit_are_refused() {
    let few = [0, 0, 0, 9];
    let map = |kind: u8, head: usize, count: [u8; 4]| {
        let mut t = vec![0, 0, 0, 1, 0, 3, 0, 10, 0, 0, 0, 12, 0, kind];
        t.resize(12 + head, 0);
        t.extend(count);
        t
    };
    for (kind, head) in [(10, 16), (12, 12), (13, 12), (14, 6)] {
        assert!(can_be_parsed(&font_with('A', vec![(b"cmap", map(kind, head, few))])), "{kind}");
        assert!(!can_be_parsed(&font_with('A', vec![(b"cmap", map(kind, head, [0xf0; 4]))])), "{kind}");
    }
    let mut collection = b"ttcf".to_vec();
    collection.extend([0, 1, 0, 0, 0xff, 0xff, 0xff, 0xff, 0, 0, 0, 16]);
    assert!(!can_be_parsed(&collection));
}

#[test]
fn a_depth_that_cannot_be_negated_is_refused() {
    let metrics = |depth: u8| {
        let mut t = vec![0u8; 78];
        t[76] = depth;
        t
    };
    assert!(reads_with(b"OS/2", metrics(0x7f)));
    assert!(reads_with(b"OS/2", metrics(0x81)));
    assert!(!reads_with(b"OS/2", metrics(0x80)));
}

#[test]
fn kerning_must_not_lead_out_of_reach() {
    let kerning = |length: [u8; 4], coverage: u8, kind: u8| {
        let mut t = vec![0, 1, 0, 0, 0, 0, 0, 2];
        t.extend(length);
        t.extend([coverage, kind, 0, 0]);
        t
    };
    assert!(reads_with(b"kern", kerning([0, 0, 0, 8], 0, 2)));
    assert!(reads_with(b"kern", kerning([0xff; 4], 0, 0)), "its length is not asked for");
    assert!(!reads_with(b"kern", kerning([0xff; 4], 0, 2)));
}

#[test]
fn a_substitution_that_leads_to_itself_is_never_followed() {
    let lookup: [u8; 8] = [0, 7, 0, 0, 0, 1, 0, 8];
    let mut gsub: Vec<u8> = vec![0, 1, 0, 0, 0, 10, 0, 10, 0, 12, 0, 0, 0, 1, 0, 4];
    gsub.extend(lookup);
    gsub.extend([0, 1, 0, 7, 0, 0, 0, 0]);
    assert!(reads_with(b"GSUB", gsub));
}

#[test]
fn a_name_is_found_in_a_collection_too() {
    let collection = |names: Vec<u8>| {
        let mut font = named_font('A', names);
        for i in 0..5 {
            let at = 12 + 16 * i + 11;
            let low = u16::from_be_bytes([font[at - 1], font[at]]) + 16;
            font[at - 1..=at].copy_from_slice(&low.to_be_bytes());
        }
        let mut out = b"ttcf".to_vec();
        out.extend([0, 1, 0, 0, 0, 0, 0, 1, 0, 0, 0, 16]);
        out.extend(font);
        out
    };
    let good = collection(name_table(&[(3, 1, 4, b"\0r")]));
    assert!(can_be_parsed(&good));
    assert!(read_font(&good).is_ok());
    let bad = collection(name_table(&[(3, 1, 4, b"r")]));
    assert!(!can_be_parsed(&bad));
    assert!(read_font(&bad).is_err());
    assert!(can_be_parsed(&b"no font".to_vec()));
}

#[test]
fn an_unreadable_primary_is_an_error() {
    let blobs = vec![b"no font".to_vec()];
    let words = match parse_chain(&blobs, true) {
        Err(e @ FontError::Primary(_)) => e.message(),
        other => panic!("{:?}", other.map(|f| f.len())),
    };
    assert!(words.starts_with("primary font parse failed: "));
    assert!(words.len() > "primary font parse failed: ".len());
}

#[test]
fn unreadable_fallbacks_are_skipped() {
    let blobs = vec![tiny_font('A'), b"no font".to_vec(), tiny_font('B')];
    assert_eq!(parse_chain(&blobs, true).unwrap().len(), 2);
    let blobs = vec![b"no font".to_vec(), tiny_font('A')];
    assert_eq!(parse_chain(&blobs, false).unwrap().len(), 1);
    assert!(parse_chain(&blobs, true).is_err());
}

#[test]
fn without_a_regular_font_there_is_nothing() {
    let blobs = FontBlobs::default();
    match FontSet::parse(&blobs) {
        Err(e @ FontError::NoPrimary) => assert_eq!(e.message(), "no usable primary font"),
        _ => panic!("fonts from nowhere"),
    }
    let blobs = FontBlobs { regular: vec![vec![1, 2, 3]], ..FontBlobs::default() };
    assert!(matches!(FontSet::parse(&blobs), Err(FontError::Primary(_))));
}

#[test]
fn the_first_font_that_covers_a_character_draws_it() {
    let blobs = FontBlobs {
        regular: vec![tiny_font('A'), tiny_font('B')],
        bold: vec![tiny_font('C')],
        italic: vec![tiny_font('A')],
        bold_italic: vec![],
    };
    let Ok(set) = FontSet::parse(&blobs) else { panic!("readable fonts") };
    assert_eq!(set.font_for('A', false, false), (Style::Regular, 0));
    assert_eq!(set.font_for('B', false, false), (Style::Regular, 1));
    assert_eq!(set.font_for('A', false, true), (Style::Italic, 0));
    assert_eq!(set.font_for('C', true, false), (Style::Bold, 0));
    assert_eq!(set.font_for('C', true, true), (Style::Bold, 0), "looser before regular");
    assert_eq!(set.font_for('A', true, true), (Style::Italic, 0));
    assert_eq!(set.font_for('B', true, true), (Style::Regular, 1));
    assert_eq!(set.font_for('漢', true, false), (Style::Regular, 0), "the primary draws a blank");
    assert_eq!(set.font(Style::Regular, 1).lookup_glyph_index('B'), 1);
    assert_eq!(set.font(Style::Regular, 1).lookup_glyph_index('A'), 0);
}

#[test]
fn the_first_number_that_is_a_glyph_s_wins() {
    let styles = vec![Style::Bold, Style::Regular];
    assert_eq!(first_drawing(&styles, &vec![vec![0, 0], vec![0, 5, 7]]), (Style::Regular, 1));
    assert_eq!(first_drawing(&styles, &vec![vec![0, 3], vec![9]]), (Style::Bold, 1));
    assert_eq!(first_drawing(&styles, &vec![vec![], vec![0]]), (Style::Regular, 0));
}

#[test]
fn a_chain_may_lack_its_primary_only_where_it_is_not_required() {
    let bad = || -> Vec<Result<fontdue::Font, &'static str>> { vec![Err("first"), Err("second")] };
    match usable_chain(bad(), true) {
        Err(FontError::Primary(e)) => assert_eq!(e, "first"),
        _ => panic!("the primary is required"),
    }
    assert!(usable_chain(bad(), false).unwrap().is_empty());
    assert!(usable_chain(vec![], true).unwrap().is_empty());
}

fn bitmap(width: usize, height: usize) -> Bitmap {
    Bitmap { width, height, xmin: 1, ymin: -3 }
}

#[test]
fn glyphs_are_packed_in_shelves() {
    let mut atlas = Atlas::new();
    assert_eq!(atlas.lookup('a', false, false), Cached::Unseen);
    let a = atlas.pack('a', false, false, bitmap(10, 20)).unwrap();
    assert_eq!(a, Glyph { x: 2, y: 2, w: 10, h: 20, left: 1, top: 17 });
    let b = atlas.pack('b', false, false, bitmap(10, 30)).unwrap();
    assert_eq!((b.x, b.y), (13, 2));
    let wide = atlas.pack('w', false, false, bitmap(1000, 5)).unwrap();
    assert_eq!((wide.x, wide.y), (2, 33), "below the tallest of the shelf");
    assert_eq!(atlas.lookup('a', false, false), Cached::Placed(a));
    assert_eq!(atlas.lookup('a', true, false), Cached::Unseen, "another style is another glyph");
    atlas.clear();
    assert_eq!(atlas.lookup('a', false, false), Cached::Unseen);
    assert_eq!(atlas.pack('z', false, false, bitmap(1, 1)).map(|g| (g.x, g.y)), Some((2, 2)));
}

#[test]
fn a_blank_takes_no_room_and_is_remembered() {
    let mut atlas = Atlas::new();
    let nothing = atlas.pack(' ', false, false, bitmap(0, 0));
    assert_eq!(nothing, None);
    assert_eq!(atlas.lookup(' ', false, false), Cached::Blank, "nothing is drawn this time either");
    assert_eq!(atlas.lookup(' ', true, false), Cached::Unseen);
    assert_eq!(atlas.pack('a', false, false, bitmap(1, 1)).map(|g| (g.x, g.y)), Some((2, 2)));
}

#[test]
fn what_has_no_room_is_not_remembered() {
    let mut atlas = Atlas::new();
    assert_eq!(atlas.pack('w', false, false, bitmap(1022, 5)), None);
    assert_eq!(atlas.pack('h', false, false, bitmap(5, 1022)), None);
    assert_eq!(atlas.lookup('w', false, false), Cached::Unseen);
    assert_eq!(atlas.lookup('h', false, false), Cached::Unseen);
}

#[test]
fn packed_glyphs_never_overlap() {
    let mut atlas = Atlas::new();
    let mut seen: Vec<Glyph> = Vec::new();
    for n in 0..400u32 {
        let c = char::from_u32(0x4e00 + n).unwrap();
        let b = bitmap(7 + (n as usize * 13) % 60, 5 + (n as usize * 7) % 40);
        if let Some(g) = atlas.pack(c, n % 2 == 0, n % 3 == 0, b) {
            for o in &seen {
                let apart = g.x + g.w <= o.x
                    || o.x + o.w <= g.x
                    || g.y + g.h <= o.y
                    || o.y + o.h <= g.y;
                assert!(apart, "{g:?} over {o:?}");
            }
            seen.push(g);
        }
    }
    assert!(seen.len() > 300);
}

fn face(families: &[&str], monospaced: bool, weight: u16, italic: bool) -> FaceInfo {
    FaceInfo {
        id: ID::dummy(),
        source: Source::Binary(Arc::new(Vec::<u8>::new())),
        index: 0,
        families: families.iter().map(|f| (f.to_string(), Language::English_UnitedStates)).collect(),
        post_script_name: String::new(),
        style: if italic { Slanted::Italic } else { Slanted::Normal },
        weight: Weight(weight),
        stretch: Stretch::Normal,
        monospaced,
    }
}

#[test]
fn the_picker_offers_each_monospaced_family_once() {
    let mut db = Database::new();
    db.push_face_info(face(&["Zeta Mono", "Other Name"], true, 400, false));
    db.push_face_info(face(&["Sans"], false, 400, false));
    db.push_face_info(face(&["Alpha Mono"], true, 400, false));
    db.push_face_info(face(&["Zeta Mono"], true, 700, false));
    db.push_face_info(face(&[], true, 400, false));
    assert_eq!(monospace_families(&db), vec!["Alpha Mono", "Zeta Mono"]);
    assert!(monospace_families(&Database::new()).is_empty());
    let list = vec![
        (Some("b".to_string()), true),
        (Some("B".to_string()), true),
        (None, true),
        (Some("a".to_string()), false),
        (Some("b".to_string()), true),
    ];
    assert_eq!(families_among(&list), vec!["B", "b"]);
}

#[test]
fn a_face_is_found_by_family_weight_and_slant() {
    let mut db = Database::new();
    let plain = db.push_face_info(face(&["Alpha Mono"], true, 400, false));
    let bold = db.push_face_info(face(&["Alpha Mono"], true, 700, false));
    let italic = db.push_face_info(face(&["Alpha Mono"], true, 400, true));
    let ids = [plain, bold, italic];
    let mut read = |id: ID| ids.iter().position(|i| *i == id).map(|i| vec![i as u8]);
    let mut ask = |family: &str, weight, slant| face_data(&db, family, weight, slant, &mut read);
    assert_eq!(ask("Alpha Mono", NORMAL_WEIGHT, Slant::Upright), Some(vec![0]));
    assert_eq!(ask("Alpha Mono", BOLD_WEIGHT, Slant::Upright), Some(vec![1]));
    assert_eq!(ask("Alpha Mono", NORMAL_WEIGHT, Slant::Italic), Some(vec![2]));
    assert_eq!(ask("Beta Mono", NORMAL_WEIGHT, Slant::Upright), None);
    let mut unreadable = |_: ID| None;
    assert_eq!(
        face_data(&db, "Alpha Mono", NORMAL_WEIGHT, Slant::Upright, &mut unreadable),
        None
    );
}

#[test]
fn a_chain_begins_with_the_family_and_goes_on_with_coverage() {
    let mut db = Database::new();
    let names = ["Mine", "DejaVu Sans Mono", "DejaVu Sans", "FreeMono"];
    let ids: Vec<ID> =
        names.iter().map(|n| db.push_face_info(face(&[*n], true, 400, false))).collect();
    let bold = db.push_face_info(face(&["Mine"], true, 700, false));
    let mut lookup = |id: ID| {
        if id == bold {
            return Some(vec![9]);
        }
        ids.iter().position(|i| *i == id).map(|i| vec![i as u8])
    };
    let mut read = |_: &'static str| -> Option<Vec<u8>> { panic!("no file is needed") };
    let blobs = font_blobs(&db, "Mine", &mut lookup, &mut read);
    assert_eq!(blobs.regular, vec![vec![0], vec![2], vec![3]]);
    assert_eq!(blobs.bold, vec![vec![9]]);
    let blobs = font_blobs(&db, "Missing", &mut lookup, &mut read);
    assert_eq!(blobs.regular, vec![vec![1], vec![2], vec![3]], "a stand-in");
    assert!(blobs.bold.is_empty() && blobs.italic.is_empty() && blobs.bold_italic.is_empty());
}

#[test]
fn without_a_database_the_usual_places_are_read() {
    let db = Database::new();
    let asked: RefCell<Vec<&'static str>> = RefCell::new(Vec::new());
    let mut lookup = |_: ID| -> Option<Vec<u8>> { None };
    let mut read = |path: &'static str| {
        asked.borrow_mut().push(path);
        if path.ends_with("DejaVuSansMono.ttf") || path.ends_with("LiberationMono-Bold.ttf") {
            Some(path.as_bytes().to_vec())
        } else {
            None
        }
    };
    let blobs = font_blobs(&db, "Mine", &mut lookup, &mut read);
    assert_eq!(blobs.regular.len(), 3);
    assert_eq!(blobs.regular[0], b"/usr/share/fonts/truetype/dejavu/DejaVuSansMono.ttf".to_vec());
    assert_eq!(blobs.bold.len(), 1);
    assert!(blobs.italic.is_empty());
    assert_eq!(asked.borrow().len(), 10 + 3 + 3 + 3);
    assert!(load_fonts(&mut |_: &'static str| None).is_none());
    let blobs = font_blobs(&db, "Mine", &mut lookup, &mut |_: &'static str| None);
    assert!(blobs.regular.is_empty());
}

#[test]
fn fonts_that_only_cover_gaps_are_no_primary() {
    let mut cover = |path: &'static str| path.ends_with("/DejaVuSans.ttf").then(|| vec![7u8]);
    assert!(load_fonts(&mut cover).is_none());
    let mut last = |path: &'static str| {
        (path.ends_with("/NotoSansMono-Regular.ttf") || path.ends_with("/FreeMono.ttf"))
            .then(|| path.as_bytes().to_vec())
    };
    let blobs = load_fonts(&mut last).unwrap();
    assert_eq!(
        blobs.regular,
        vec![
            b"/usr/share/fonts/noto/NotoSansMono-Regular.ttf".to_vec(),
            b"/usr/share/fonts/truetype/freefont/FreeMono.ttf".to_vec(),
        ]
    );
    let some = || Some(vec![1u8]);
    assert_eq!(regular_of(vec![None, None, None, None, None, None, some()]), None);
    assert_eq!(
        regular_of(vec![None, None, None, None, None, some(), None, Some(vec![2])]),
        Some(vec![vec![1], vec![2]])
    );
    assert_eq!(regular_of(vec![]), None);
}

#[test]
fn the_usual_places_stand_in_for_a_missing_primary() {
    let mut db = Database::new();
    db.push_face_info(face(&["DejaVu Sans"], false, 400, false));
    let mut lookup = |_: ID| Some(vec![5u8]);
    let mut read = |path: &'static str| {
        path.ends_with("dejavu/DejaVuSansMono.ttf").then(|| path.as_bytes().to_vec())
    };
    let blobs = font_blobs(&db, "Mine", &mut lookup, &mut read);
    assert_eq!(blobs.regular.len(), 2, "only from the files");
    assert!(blobs.regular[0].starts_with(b"/usr/share/fonts/truetype"));
    let blobs = font_blobs(&db, "Mine", &mut lookup, &mut |_: &'static str| None);
    assert_eq!(blobs.regular, vec![vec![5]], "what covers gaps is all there is");
}
