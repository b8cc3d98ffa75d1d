//! A font file, made ready to be parsed.
//!
//! A font file holds a directory of tables, of which text needs a dozen: those of the
//! characters, the outlines, the metrics and the names. [`trim`] empties the others, so that
//! what a font does to ligatures, colours or weights is left out. Of the tables that stay,
//! the parser trusts some numbers further than it should: it decodes the full name without
//! asking whether it is whole, and adds up sizes and counts that need not fit. A file in
//! which such a number is wrong would stop the program. [`can_be_parsed`] tells these
//! files, and those whose outlines are not TrueType, from the rest.
use vstd::prelude::*;

verus! {

/// The longest file that is looked at, in bytes: places in a file are 32 bits wide, and
/// some room is left for what is read behind its end.
pub const LONGEST: u64 = 0xff00_0000;

/// The greatest place in a table that can be read.
pub const LAST_PLACE: u64 = 0xffff_ffff;

/// The big-endian number in the two bytes at `at`.
pub open spec fn be16(b: Seq<u8>, at: int) -> Option<int> {
    if 0 <= at && at + 2 <= b.len() {
        Some(b[at] * 0x100 + b[at + 1])
    } else {
        None
    }
}

/// The big-endian number in the four bytes at `at`.
pub open spec fn be32(b: Seq<u8>, at: int) -> Option<int> {
    if 0 <= at && at + 4 <= b.len() {
        Some(b[at] * 0x100_0000 + b[at + 1] * 0x1_0000 + b[at + 2] * 0x100 + b[at + 3])
    } else {
        None
    }
}

/// Whether `count` items of `size` bytes each, behind `head` bytes, end at a place that can
/// be read, whether or not the file goes on so far.
pub open spec fn list_fits(head: int, size: int, count: Option<int>) -> bool {
    match count {
        Some(n) => head + size * n <= LAST_PLACE,
        None => true,
    }
}

fn fits(head: u64, size: u64, count: Option<u64>) -> (r: bool)
    requires
        head <= 0x1_ffff_ffff,
        size <= 16,
        count is Some ==> count->0 <= 0xffff_ffff,
    ensures
        r == list_fits(head as int, size as int, match count {
            Some(n) => Some(n as int),
            None => None,
        }),
{
    match count {
        Some(n) => {
            proof {
                assert(0 <= size * n <= 16 * 0xffff_ffff) by (nonlinear_arith)
                    requires
                        0 <= size <= 16,
                        0 <= n <= 0xffff_ffff,
                ;
            }
            head + size * n <= LAST_PLACE
        },
        None => true,
    }
}

/// A table: the part of a file from `start` on and before `end`.
#[derive(Clone, Copy)]
struct Window {
    start: u64,
    end: u64,
}

impl Window {
    spec fn wf(&self, b: Seq<u8>) -> bool {
        self.start <= self.end <= b.len() && b.len() <= LONGEST
    }

    spec fn of(&self, b: Seq<u8>) -> Seq<u8> {
        b.subrange(self.start as int, self.end as int)
    }

    fn len(&self) -> (r: u64)
        requires
            self.start <= self.end,
        ensures
            r == self.end - self.start,
    {
        self.end - self.start
    }

    fn get16(&self, b: &Vec<u8>, at: u64) -> (r: Option<u64>)
        requires
            self.wf(b@),
            at <= 0xff_ffff_ffff,
        ensures
            match r {
                Some(v) => be16(self.of(b@), at as int) == Some(v as int) && v <= 0xffff,
                None => be16(self.of(b@), at as int) is None,
            },
    {
        if self.start + at + 2 <= self.end {
            let i: usize = (self.start + at) as usize;
            Some(b[i] as u64 * 0x100 + b[i + 1] as u64)
        } else {
            None
        }
    }

    fn get32(&self, b: &Vec<u8>, at: u64) -> (r: Option<u64>)
        requires
            self.wf(b@),
            at <= 0xff_ffff_ffff,
        ensures
            match r {
                Some(v) => be32(self.of(b@), at as int) == Some(v as int) && v <= 0xffff_ffff,
                None => be32(self.of(b@), at as int) is None,
            },
    {
        if self.start + at + 4 <= self.end {
            let i: usize = (self.start + at) as usize;
            Some(
                b[i] as u64 * 0x100_0000 + b[i + 1] as u64 * 0x1_0000 + b[i + 2] as u64 * 0x100
                    + b[i + 3] as u64,
            )
        } else {
            None
        }
    }
}

/// Where the records of a table of names begin, and how many there are. `None` where the
/// table is of no known kind or too short for them.
pub open spec fn name_records(t: Seq<u8>) -> Option<(int, int)> {
    match (be16(t, 0), be16(t, 2), be16(t, 4)) {
        (Some(version), Some(count), Some(_)) => {
            let at = if version == 0 {
                Some(6int)
            } else if version == 1 {
                match be16(t, 6) {
                    Some(languages) => if 4 * languages <= u16::MAX {
                        Some(8 + 4 * languages)
                    } else {
                        None
                    },
                    None => None,
                }
            } else {
                None
            };
            match at {
                Some(at) => if at + 12 * count <= t.len() {
                    Some((at, count))
                } else {
                    None
                },
                None => None,
            }
        },
        _ => None,
    }
}

/// Where the text of the names begins: at the place that the table's head gives, or where
/// the records end, if that is later.
pub open spec fn storage_start(t: Seq<u8>, records_end: int) -> int {
    let given = be16(t, 4)->Some_0;
    if records_end < given {
        given
    } else {
        records_end
    }
}

/// The bytes of the first full name in UTF-16 from record `i` on: the record's name is
/// number 4, and its platform is Unicode, or Windows with one of the two encodings that
/// are Unicode. The search ends at a record of an unknown platform, and at one whose text
/// does not lie in the table.
pub open spec fn full_name_from(t: Seq<u8>, at: int, count: int, storage: int, i: int) -> Option<Seq<u8>>
    decreases count - i,
{
    if i >= count {
        None
    } else {
        let record = at + 12 * i;
        let platform = be16(t, record)->Some_0;
        let encoding = be16(t, record + 2)->Some_0;
        let start = storage + be16(t, record + 10)->Some_0;
        let end = start + be16(t, record + 8)->Some_0;
        if platform > 4 || end > t.len() {
            None
        } else if be16(t, record + 6)->Some_0 == 4 && (platform == 0 || platform == 3 && (encoding == 0
            || encoding == 1)) {
            Some(t.subrange(start, end))
        } else {
            full_name_from(t, at, count, storage, i + 1)
        }
    }
}

/// The first full name in UTF-16 of a table of names.
pub open spec fn full_name_in(t: Seq<u8>) -> Option<Seq<u8>> {
    match name_records(t) {
        Some((at, count)) => {
            let storage = storage_start(t, at + 12 * count);
            if storage <= t.len() {
                full_name_from(t, at, count, storage, 0)
            } else {
                None
            }
        },
        None => None,
    }
}

/// Whether `b` is well-formed big-endian UTF-16: two bytes to a unit, and each unit either
/// no surrogate, or a high one with a low one after it.
pub open spec fn is_utf16(b: Seq<u8>) -> bool
    decreases b.len(),
{
    if b.len() == 0 {
        true
    } else {
        match be16(b, 0) {
            None => false,
            Some(unit) => if unit < 0xd800 || 0xe000 <= unit {
                is_utf16(b.skip(2))
            } else {
                unit < 0xdc00 && be16(b, 2) is Some && 0xdc00 <= be16(b, 2)->Some_0 < 0xe000 && is_utf16(
                    b.skip(4),
                )
            },
        }
    }
}

/// Whether the full name in a table of names can be decoded: there is none in UTF-16, or a
/// well-formed one.
pub open spec fn names_sound(t: Seq<u8>) -> bool {
    match full_name_in(t) {
        Some(name) => is_utf16(name),
        None => true,
    }
}

fn is_utf16_in(b: &Vec<u8>, w: Window) -> (r: bool)
    requires
        w.wf(b@),
    ensures
        r == is_utf16(w.of(b@)),
{
    let mut rest: Window = w;
    while rest.start < rest.end
        invariant
            rest.wf(b@),
            is_utf16(w.of(b@)) == is_utf16(rest.of(b@)),
        decreases rest.end - rest.start,
    {
        let ghost left = rest.of(b@);
        let unit: u64 = match rest.get16(b, 0) {
            Some(unit) => unit,
            None => return false,
        };
        if unit < 0xd800 || 0xe000 <= unit {
            rest = Window { start: rest.start + 2, end: rest.end };
            assert(rest.of(b@) =~= left.skip(2));
        } else {
            let low: u64 = match rest.get16(b, 2) {
                Some(low) => low,
                None => return false,
            };
            if unit >= 0xdc00 || low < 0xdc00 || 0xe000 <= low {
                return false;
            }
            rest = Window { start: rest.start + 4, end: rest.end };
            assert(rest.of(b@) =~= left.skip(4));
        }
    }
    true
}

fn find_name_records(b: &Vec<u8>, w: Window) -> (r: Option<(u64, u64)>)
    requires
        w.wf(b@),
    ensures
        match r {
            Some((at, count)) => name_records(w.of(b@)) == Some((at as int, count as int)) && at
                <= 0x1_0008 && count <= 0xffff,
            None => name_records(w.of(b@)) is None,
        },
{
    let version: u64 = match w.get16(b, 0) {
        Some(v) => v,
        None => return None,
    };
    let count: u64 = match w.get16(b, 2) {
        Some(v) => v,
        None => return None,
    };
    if w.get16(b, 4).is_none() {
        return None;
    }
    let at: u64 = if version == 0 {
        6
    } else if version == 1 {
        match w.get16(b, 6) {
            Some(languages) => if 4 * languages <= 0xffff {
                8 + 4 * languages
            } else {
                return None;
            },
            None => return None,
        }
    } else {
        return None;
    };
    if at + 12 * count <= w.len() {
        Some((at, count))
    } else {
        None
    }
}

spec fn sound_from(t: Seq<u8>, at: int, count: int, storage: int, i: int) -> bool {
    match full_name_from(t, at, count, storage, i) {
        Some(name) => is_utf16(name),
        None => true,
    }
}

fn names_are_sound(b: &Vec<u8>, w: Window) -> (r: bool)
    requires
        w.wf(b@),
    ensures
        r == names_sound(w.of(b@)),
{
    let ghost t = w.of(b@);
    let (at, count) = match find_name_records(b, w) {
        Some(records) => records,
        None => return true,
    };
    let given: u64 = match w.get16(b, 4) {
        Some(v) => v,
        None => return true,
    };
    let records_end: u64 = at + 12 * count;
    let storage: u64 = if records_end < given {
        given
    } else {
        records_end
    };
    if storage > w.len() {
        return true;
    }
    let mut i: u64 = 0;
    while i < count
        invariant
            i <= count <= 0xffff,
            at <= 0x1_0008,
            at + 12 * count <= storage <= 0xff_ffff,
            storage <= w.end - w.start,
            w.wf(b@),
            t == w.of(b@),
            full_name_in(t) == full_name_from(t, at as int, count as int, storage as int, 0),
            sound_from(t, at as int, count as int, storage as int, 0) == sound_from(
                t,
                at as int,
                count as int,
                storage as int,
                i as int,
            ),
        decreases count - i,
    {
        let record: u64 = at + 12 * i;
        let platform: Option<u64> = w.get16(b, record);
        let encoding: Option<u64> = w.get16(b, record + 2);
        let number: Option<u64> = w.get16(b, record + 6);
        let length: Option<u64> = w.get16(b, record + 8);
        let offset: Option<u64> = w.get16(b, record + 10);
        assert(record + 12 <= t.len());
        if let (Some(platform), Some(encoding), Some(number), Some(length), Some(offset)) = (
            platform,
            encoding,
            number,
            length,
            offset,
        ) {
            let from: u64 = storage + offset;
            let to: u64 = from + length;
            if platform > 4 || to > w.len() {
                return true;
            }
            if number == 4 && (platform == 0 || platform == 3 && (encoding == 0 || encoding == 1)) {
                let name: Window = Window { start: w.start + from, end: w.start + to };
                assert(name.of(b@) =~= t.subrange(from as int, to as int));
                return is_utf16_in(b, name);
            }
        }
        i = i + 1;
    }
    true
}

/// Whether the list of a character map's subtable at `at` fits. Of the kinds of subtable
/// there are, four count their items in 32 bits.
pub open spec fn map_fits(t: Seq<u8>, at: int) -> bool {
    match be16(t, at) {
        Some(kind) => if kind == 10 {
            list_fits(20, 2, be32(t, at + 16))
        } else if kind == 12 || kind == 13 {
            list_fits(16, 12, be32(t, at + 12))
        } else if kind == 14 {
            list_fits(10, 11, be32(t, at + 6))
        } else {
            true
        },
        None => true,
    }
}

/// Whether the lists of all subtables of a character map fit.
pub open spec fn maps_fit(t: Seq<u8>) -> bool {
    match be16(t, 2) {
        Some(count) => 4 + 8 * count <= t.len() ==> forall|i: int|
            0 <= i < count ==> #[trigger] map_fits(t, be32(t, 8 + 8 * i)->Some_0),
        None => true,
    }
}

fn map_fits_in(b: &Vec<u8>, w: Window, at: u64) -> (r: bool)
    requires
        w.wf(b@),
        at <= 0xffff_ffff,
    ensures
        r == map_fits(w.of(b@), at as int),
{
    match w.get16(b, at) {
        Some(kind) => if kind == 10 {
            fits(20, 2, w.get32(b, at + 16))
        } else if kind == 12 || kind == 13 {
            fits(16, 12, w.get32(b, at + 12))
        } else if kind == 14 {
            fits(10, 11, w.get32(b, at + 6))
        } else {
            true
        },
        None => true,
    }
}

fn maps_fit_in(b: &Vec<u8>, w: Window) -> (r: bool)
    requires
        w.wf(b@),
    ensures
        r == maps_fit(w.of(b@)),
{
    let ghost t = w.of(b@);
    let count: u64 = match w.get16(b, 2) {
        Some(count) => count,
        None => return true,
    };
    if 4 + 8 * count > w.len() {
        return true;
    }
    let mut i: u64 = 0;
    while i < count
        invariant
            i <= count <= 0xffff,
            w.wf(b@),
            t == w.of(b@),
            be16(t, 2) == Some(count as int),
            4 + 8 * count <= t.len(),
            forall|k: int| 0 <= k < i ==> #[trigger] map_fits(t, be32(t, 8 + 8 * k)->Some_0),
        decreases count - i,
    {
        if let Some(at) = w.get32(b, 8 + 8 * i) {
            if !map_fits_in(b, w, at) {
                assert(!map_fits(t, be32(t, 8 + 8 * i as int)->Some_0));
                return false;
            }
        }
        i = i + 1;
    }
    true
}

/// Whether the depth below the baseline that a table of metrics gives can be negated.
pub open spec fn depth_fits(t: Seq<u8>) -> bool {
    be16(t, 76) != Some(0x8000int)
}

/// Whether the walk over `left` subtables of kerning from `at` on stays at places that can
/// be read. It ends behind the table, and at the first horizontal subtable of a known kind;
/// a vertical one is passed over by its head alone.
pub open spec fn kerning_walks(t: Seq<u8>, at: int, left: nat) -> bool
    decreases left,
{
    if left == 0 || at < 0 || at + 8 > t.len() {
        true
    } else if t[at + 5] == 0 || t[at + 5] == 3 {
        t[at + 4] < 0x80 || kerning_walks(t, at + 8, (left - 1) as nat)
    } else {
        let next = at + be32(t, at)->Some_0;
        next <= LONGEST && kerning_walks(t, next, (left - 1) as nat)
    }
}

/// Whether the walk over a table of kerning stays at places that can be read. Only the
/// newer kind of table gives lengths that are wide enough to lead it astray.
pub open spec fn kerning_fits(t: Seq<u8>) -> bool {
    be16(t, 0) == Some(1int) && be32(t, 4) is Some ==> kerning_walks(t, 8, be32(t, 4)->Some_0 as nat)
}

fn kerning_fits_in(b: &Vec<u8>, w: Window) -> (r: bool)
    requires
        w.wf(b@),
    ensures
        r == kerning_fits(w.of(b@)),
{
    let ghost t = w.of(b@);
    let mut left: u64 = match (w.get16(b, 0), w.get32(b, 4)) {
        (Some(version), Some(count)) => if version == 1 {
            count
        } else {
            return true;
        },
        _ => return true,
    };
    let mut at: u64 = 8;
    while left > 0 && at + 8 <= w.len()
        invariant
            w.wf(b@),
            t == w.of(b@),
            8 <= at <= LONGEST + 8,
            kerning_fits(t) == kerning_walks(t, at as int, left as nat),
        decreases left,
    {
        let i: usize = (w.start + at) as usize;
        let coverage: u8 = b[i + 4];
        let kind: u8 = b[i + 5];
        assert(t[at + 4] == coverage && t[at + 5] == kind);
        left = left - 1;
        if kind == 0 || kind == 3 {
            if coverage < 0x80 {
                return true;
            }
            at = at + 8;
        } else if let Some(length) = w.get32(b, at) {
            if at + length > LONGEST {
                return false;
            }
            at = at + length;
        }
    }
    true
}

/// Whether a face begins with this number: TrueType outlines, under either of two
/// marks, or OpenType ones.
pub open spec fn marks_face(magic: int) -> bool {
    magic == 0x0001_0000 || magic == 0x7472_7565 || magic == 0x4f54_544f
}

/// Whether a file begins as a collection of faces.
pub open spec fn is_collection(b: Seq<u8>) -> bool {
    be32(b, 0) == Some(0x7474_6366int)
}

/// Where the first face of a file begins: at the start of a file with one face, and in a
/// collection at the first of the places that its head lists.
pub open spec fn face_start(b: Seq<u8>) -> Option<int> {
    if is_collection(b) {
        match (be32(b, 8), be32(b, 12)) {
            (Some(count), Some(start)) => if count >= 1 && 12 + 4 * count <= start && (be32(
                b,
                start,
            ) is Some && marks_face(be32(b, start)->Some_0)) {
                Some(start)
            } else {
                None
            },
            _ => None,
        }
    } else {
        match be32(b, 0) {
            Some(magic) => if marks_face(magic) {
                Some(0)
            } else {
                None
            },
            None => None,
        }
    }
}

/// Where the records of the first face's tables begin, and how many there are.
pub open spec fn directory(b: Seq<u8>) -> Option<(int, int)> {
    match face_start(b) {
        Some(face) => match be16(b, face + 4) {
            Some(n) => if face + 12 + 16 * n <= b.len() {
                Some((face + 12, n))
            } else {
                None
            },
            None => None,
        },
        None => None,
    }
}

/// Whether text needs a table: the font's head, its characters, its outlines, its
/// horizontal and vertical metrics, its kerning and its names.
pub open spec fn needed(tag: int) -> bool {
    ||| tag == 0x6865_6164
    ||| tag == 0x6d61_7870
    ||| tag == 0x636d_6170
    ||| tag == 0x676c_7966
    ||| tag == 0x6c6f_6361
    ||| tag == 0x6868_6561
    ||| tag == 0x686d_7478
    ||| tag == 0x7668_6561
    ||| tag == 0x766d_7478
    ||| tag == 0x4f53_2f32
    ||| tag == 0x6b65_726e
    ||| tag == 0x6e61_6d65
}

/// Whether a table holds outlines in the compact format, of either version.
pub open spec fn compact_outlines(tag: int) -> bool {
    tag == 0x4346_4620 || tag == 0x4346_4632
}

fn is_needed(tag: u64) -> (r: bool)
    ensures
        r == needed(tag as int),
{
    tag == 0x6865_6164 || tag == 0x6d61_7870 || tag == 0x636d_6170 || tag == 0x676c_7966 || tag == 0x6c6f_6361
        || tag == 0x6868_6561 || tag == 0x686d_7478 || tag == 0x7668_6561 || tag == 0x766d_7478 || tag
        == 0x4f53_2f32 || tag == 0x6b65_726e || tag == 0x6e61_6d65
}

/// Whether the table that the `i`th of the sixteen-byte records at `records` lists can be
/// parsed. Outlines in the compact format cannot, and other tables that text does not need
/// must be empty; of those that it needs, the ones that lie in the file are looked at.
pub open spec fn table_sound(b: Seq<u8>, records: int, i: int) -> bool {
    let tag = be32(b, records + 16 * i)->Some_0;
    let start = be32(b, records + 16 * i + 8)->Some_0;
    let end = start + be32(b, records + 16 * i + 12)->Some_0;
    let t = b.subrange(start, end);
    if compact_outlines(tag) {
        false
    } else if !needed(tag) {
        start == end
    } else if end > b.len() {
        true
    } else if tag == 0x6e61_6d65 {
        names_sound(t)
    } else if tag == 0x636d_6170 {
        maps_fit(t)
    } else if tag == 0x4f53_2f32 {
        depth_fits(t)
    } else if tag == 0x6b65_726e {
        kerning_fits(t)
    } else {
        true
    }
}

/// Whether the tables that the first `n` records at `records` list can all be parsed.
pub open spec fn tables_sound(b: Seq<u8>, records: int, n: int) -> bool {
    forall|i: int| 0 <= i < n ==> #[trigger] table_sound(b, records, i)
}

/// Whether a file can be handed to the parser: it is not too long, a collection does not
/// list more faces than places can be read, and the first face, where there is one, lists
/// a countable number of tables, all of them sound.
pub open spec fn parsable(b: Seq<u8>) -> bool {
    &&& b.len() <= LONGEST
    &&& is_collection(b) ==> list_fits(12, 4, be32(b, 8))
    &&& match directory(b) {
        Some((records, n)) => n < 0xffff && tables_sound(b, records, n),
        None => true,
    }
}

fn find_directory(b: &Vec<u8>, w: Window) -> (r: Option<(u64, u64)>)
    requires
        w.wf(b@),
        w.start == 0,
        w.end == b@.len(),
    ensures
        match r {
            Some((records, n)) => directory(b@) == Some((records as int, n as int)) && n <= 0xffff && records
                <= 0x1_ffff_ffff,
            None => directory(b@) is None,
        },
{
    assert(w.of(b@) =~= b@);
    let magic: u64 = match w.get32(b, 0) {
        Some(v) => v,
        None => return None,
    };
    let mut face: u64 = 0;
    let mut mark: u64 = magic;
    if magic == 0x7474_6366 {
        let count: u64 = match w.get32(b, 8) {
            Some(v) => v,
            None => return None,
        };
        face = match w.get32(b, 12) {
            Some(v) => v,
            None => return None,
        };
        if count < 1 || 12 + 4 * count > face {
            return None;
        }
        mark = match w.get32(b, face) {
            Some(v) => v,
            None => return None,
        };
    }
    if mark != 0x0001_0000 && mark != 0x7472_7565 && mark != 0x4f54_544f {
        return None;
    }
    let n: u64 = match w.get16(b, face + 4) {
        Some(v) => v,
        None => return None,
    };
    if face + 12 + 16 * n <= w.len() {
        Some((face + 12, n))
    } else {
        None
    }
}

fn table_is_sound(b: &Vec<u8>, all: Window, records: u64, i: u64) -> (r: bool)
    requires
        all.wf(b@),
        all.start == 0,
        all.end == b@.len(),
        i <= 0xffff,
        records + 16 * (i + 1) <= b@.len(),
    ensures
        r == table_sound(b@, records as int, i as int),
{
    assert(all.of(b@) =~= b@);
    let at: u64 = records + 16 * i;
    let tag: u64 = match all.get32(b, at) {
        Some(v) => v,
        None => return true,
    };
    if tag == 0x4346_4620 || tag == 0x4346_4632 {
        return false;
    }
    let (start, length): (u64, u64) = match (all.get32(b, at + 8), all.get32(b, at + 12)) {
        (Some(start), Some(length)) => (start, length),
        _ => return true,
    };
    if !is_needed(tag) {
        return length == 0;
    }
    let end: u64 = start + length;
    if end > all.len() {
        return true;
    }
    let w: Window = Window { start, end };
    assert(w.of(b@) == b@.subrange(start as int, end as int));
    if tag == 0x6e61_6d65 {
        names_are_sound(b, w)
    } else if tag == 0x636d_6170 {
        maps_fit_in(b, w)
    } else if tag == 0x4f53_2f32 {
        match w.get16(b, 76) {
            Some(depth) => depth != 0x8000,
            None => true,
        }
    } else if tag == 0x6b65_726e {
        kerning_fits_in(b, w)
    } else {
        true
    }
}

/// Whether a file can be handed to the parser.
pub fn can_be_parsed(b: &Vec<u8>) -> (r: bool)
    ensures
        r == parsable(b@),
{
    if b.len() as u64 > LONGEST {
        return false;
    }
    let all: Window = Window { start: 0, end: b.len() as u64 };
    assert(all.of(b@) =~= b@);
    if let Some(magic) = all.get32(b, 0) {
        if magic == 0x7474_6366 && !fits(12, 4, all.get32(b, 8)) {
            return false;
        }
    }
    let (records, n): (u64, u64) = match find_directory(b, all) {
        Some(found) => found,
        None => return true,
    };
    if n == 0xffff {
        return false;
    }
    let mut i: u64 = 0;
    while i < n
        invariant
            i <= n < 0xffff,
            all.wf(b@),
            all.start == 0,
            all.end == b@.len(),
            directory(b@) == Some((records as int, n as int)),
            records + 16 * n <= b@.len(),
            tables_sound(b@, records as int, i as int),
        decreases n - i,
    {
        if !table_is_sound(b, all, records, i) {
            assert(!table_sound(b@, records as int, i as int));
            return false;
        }
        i = i + 1;
    }
    true
}

/// Whether the byte at `at` belongs to the length of a table that text does not need, the
/// last four bytes of its record being the length.
pub open spec fn is_emptied(b: Seq<u8>, records: int, n: int, at: int) -> bool {
    let i = (at - records) / 16;
    records <= at && i < n && (at - records) % 16 >= 12 && !needed(be32(b, records + 16 * i)->Some_0)
}

/// A file in which the tables that text does not need are empty: their lengths are zero,
/// and nothing else differs.
pub open spec fn trimmed(b: Seq<u8>) -> Seq<u8> {
    match directory(b) {
        Some((records, n)) => Seq::new(
            b.len(),
            |at: int|
                if is_emptied(b, records, n, at) {
                    0u8
                } else {
                    b[at]
                },
        ),
        None => b,
    }
}

proof fn lemma_one_more_emptied(b: Seq<u8>, records: int, i: int, p: int)
    requires
        0 <= i,
    ensures
        is_emptied(b, records, i + 1, p) <==> is_emptied(b, records, i, p) || (records + 16 * i + 12 <= p
            < records + 16 * i + 16 && !needed(be32(b, records + 16 * i)->Some_0)),
{
    let row = (p - records) / 16;
    assert(p - records == 16 * row + (p - records) % 16);
}

fn clear_four(v: &mut Vec<u8>, at: usize)
    requires
        at + 4 <= old(v)@.len(),
    ensures
        final(v)@.len() == old(v)@.len(),
        forall|p: int|
            0 <= p < old(v)@.len() ==> #[trigger] final(v)@[p] == (if at <= p < at + 4 {
                0u8
            } else {
                old(v)@[p]
            }),
{
    assert(at + 4 <= v.len());
    v[at] = 0;
    v[at + 1] = 0;
    v[at + 2] = 0;
    v[at + 3] = 0;
}

/// Empties the tables of a file that text does not need. A file that is too long to be
/// looked at stays as it is.
pub fn trim(b: &Vec<u8>) -> (r: Vec<u8>)
    ensures
        r@ == (if b@.len() <= LONGEST {
            trimmed(b@)
        } else {
            b@
        }),
{
    let mut out: Vec<u8> = b.clone();
    assert(out@ =~= b@);
    if b.len() as u64 > LONGEST {
        return out;
    }
    let all: Window = Window { start: 0, end: b.len() as u64 };
    assert(all.of(b@) =~= b@);
    let (records, n): (u64, u64) = match find_directory(b, all) {
        Some(found) => found,
        None => return out,
    };
    let mut i: u64 = 0;
    while i < n
        invariant
            i <= n <= 0xffff,
            all.wf(b@),
            all.of(b@) == b@,
            directory(b@) == Some((records as int, n as int)),
            records + 16 * n <= b@.len() <= LONGEST,
            out@.len() == b@.len(),
            forall|at: int|
                0 <= at < b@.len() ==> #[trigger] out@[at] == (if is_emptied(
                    b@,
                    records as int,
                    i as int,
                    at,
                ) {
                    0u8
                } else {
                    b@[at]
                }),
        decreases n - i,
    {
        let at: u64 = records + 16 * i;
        let ghost before = out@;
        let tag: Option<u64> = all.get32(b, at);
        let keep: bool = match tag {
            Some(tag) => is_needed(tag),
            None => true,
        };
        assert(keep == needed(be32(b@, at as int)->Some_0));
        if !keep {
            clear_four(&mut out, (at + 12) as usize);
        }
        proof {
            assert forall|p: int| 0 <= p < b@.len() implies #[trigger] out@[p] == (if is_emptied(
                b@,
                records as int,
                i + 1,
                p,
            ) {
                0u8
            } else {
                b@[p]
            }) by {
                lemma_one_more_emptied(b@, records as int, i as int, p);
                assert(before[p] == (if is_emptied(b@, records as int, i as int, p) {
                    0u8
                } else {
                    b@[p]
                }));
            }
        }
        i = i + 1;
    }
    assert(out@ =~= trimmed(b@));
    out
}

/// Emptying tables leaves a file's directory where it is. Every table keeps its tag and its
/// place; one that text needs keeps its length, and any other has none.
pub proof fn trimming_keeps_what_text_needs(b: Seq<u8>, records: int, n: int, i: int)
    requires
        directory(b) == Some((records, n)),
        0 <= i < n,
    ensures
        directory(trimmed(b)) == Some((records, n)),
        be32(trimmed(b), records + 16 * i) == be32(b, records + 16 * i),
        be32(trimmed(b), records + 16 * i + 8) == be32(b, records + 16 * i + 8),
        be32(trimmed(b), records + 16 * i + 12) == (if needed(be32(b, records + 16 * i)->Some_0) {
            be32(b, records + 16 * i + 12)
        } else {
            Some(0int)
        }),
{
    let t = trimmed(b);
    let at = records + 16 * i;
    assert(at + 16 <= b.len());
    assert forall|p: int| at <= p < at + 16 implies (p - records) / 16 == i && #[trigger] t[p] == (if p - at
        >= 12 && !needed(be32(b, at)->Some_0) {
        0u8
    } else {
        b[p]
    }) by {
        assert((p - records) / 16 == i && (p - records) % 16 == p - at);
    }
    assert forall|p: int| 0 <= p < records implies #[trigger] t[p] == b[p] by {}
}

} // verus!
