//! Reporting the pointer to the program inside a pane.
use vstd::prelude::*;
use crate::keymap::Mods;
use crate::text::{char_vec, numeral, push_number};

verus! {

/// A pointer action to report.
#[derive(Debug, Clone, Copy, PartialEq, Eq, Structural)]
pub enum MouseReport {
    /// A button was pressed: left, middle and right are 0, 1 and 2.
    Press(u16),
    Release(u16),
    /// The pointer moved with a button held.
    Drag(u16),
    /// The pointer moved with no button held.
    Move,
    /// A notch of the wheel: up, or down.
    Scroll(bool),
}

/// The greatest button a report can name.
pub const MAX_BUTTON: u16 = 0xff00;

impl MouseReport {
    /// Whether the button has a number that fits a report.
    pub open spec fn wf(&self) -> bool {
        match *self {
            MouseReport::Press(b) | MouseReport::Release(b) | MouseReport::Drag(b) => b <= MAX_BUTTON,
            _ => true,
        }
    }

    /// The code of the action and its button.
    pub open spec fn base(&self) -> int {
        match *self {
            MouseReport::Press(b) => b as int,
            MouseReport::Release(b) => b as int,
            MouseReport::Drag(b) => b + 32,
            MouseReport::Move => 35,
            MouseReport::Scroll(up) => if up {
                64
            } else {
                65
            },
        }
    }

    /// Whether this is a release.
    pub open spec fn releases(&self) -> bool {
        self is Release
    }
}

/// The code of an action with the modifiers held: Alt and Control count; Shift keeps the
/// pointer from the program and never gets here.
pub open spec fn action_code(report: MouseReport, mods: Mods) -> int {
    report.base() + (if mods.alt {
        8int
    } else {
        0
    }) + (if mods.control {
        16int
    } else {
        0
    })
}

/// The bytes of ASCII characters.
pub open spec fn ascii_bytes(s: Seq<char>) -> Seq<u8> {
    Seq::new(s.len(), |i: int| s[i] as u8)
}

/// A byte of the older form of reports: offset by 32, and no more than a byte holds.
pub open spec fn offset_byte(n: int) -> u8 {
    if n + 32 > 255 {
        255u8
    } else {
        (n + 32) as u8
    }
}

/// The report of an action at a column and row, both counted from one: in decimal
/// numbers where the program asked for them, and in single bytes where it did not.
pub open spec fn report_bytes(report: MouseReport, col: u16, row: u16, mods: Mods, sgr: bool) -> Seq<u8> {
    let code = action_code(report, mods);
    if sgr {
        seq![0x1bu8, 0x5bu8, 0x3cu8] + ascii_bytes(numeral(code as nat)) + seq![0x3bu8] + ascii_bytes(
            numeral(col as nat),
        ) + seq![0x3bu8] + ascii_bytes(numeral(row as nat)) + seq![
            if report.releases() {
                0x6du8
            } else {
                0x4du8
            },
        ]
    } else {
        seq![
            0x1bu8,
            0x5bu8,
            0x4du8,
            offset_byte(
                if report.releases() {
                    3
                } else {
                    code
                },
            ),
            offset_byte(col as int),
            offset_byte(row as int),
        ]
    }
}

fn push_decimal(out: &mut Vec<u8>, n: u64)
    ensures
        final(out)@ == old(out)@ + ascii_bytes(numeral(n as nat)),
{
    let mut s: String = String::new();
    push_number(&mut s, n);
    assert(s@ =~= numeral(n as nat));
    let v: Vec<char> = char_vec(s.as_str());
    let mut i: usize = 0;
    proof {
        lemma_ascii(n as nat);
        assert(out@ =~= old(out)@ + ascii_bytes(v@).take(0));
    }
    while i < v.len()
        invariant
            i <= v@.len(),
            v@ == numeral(n as nat),
            forall|j: int| 0 <= j < v@.len() ==> '0' <= #[trigger] v@[j] && v@[j] <= '9',
            out@ == old(out)@ + ascii_bytes(v@).take(i as int),
        decreases v@.len() - i,
    {
        let c: char = v[i];
        out.push(c as u8);
        assert(ascii_bytes(v@).take(i + 1) =~= ascii_bytes(v@).take(i as int).push(c as u8));
        i = i + 1;
        assert(out@ =~= old(out)@ + ascii_bytes(v@).take(i as int));
    }
    assert(ascii_bytes(v@).take(i as int) =~= ascii_bytes(v@));
}

proof fn lemma_ascii(n: nat)
    ensures
        forall|j: int| 0 <= j < numeral(n).len() ==> '0' <= #[trigger] numeral(n)[j] && numeral(n)[j] <= '9',
{
    crate::text::a_numeral_reads_back(n, n);
    assert forall|j: int| 0 <= j < numeral(n).len() implies '0' <= #[trigger] numeral(n)[j] && numeral(n)[j]
        <= '9' by {
        assert(crate::text::digit_char(numeral(n)[j]));
    }
}

fn to_offset_byte(n: u16) -> (r: u8)
    ensures
        r == offset_byte(n as int),
{
    if n > 223 {
        255
    } else {
        (n + 32) as u8
    }
}

/// Encode a pointer action as a terminal's mouse report, at a column and row counted
/// from one.
pub fn encode_mouse(report: MouseReport, col: u16, row: u16, mods: Mods, sgr: bool) -> (r: Option<Vec<u8>>)
    requires
        report.wf(),
    ensures
        r is Some,
        r->0@ == report_bytes(report, col, row, mods, sgr),
{
    let (base, release): (u16, bool) = match report {
        MouseReport::Press(b) => (b, false),
        MouseReport::Release(b) => (b, true),
        MouseReport::Drag(b) => (b + 32, false),
        MouseReport::Move => (35, false),
        MouseReport::Scroll(up) => (
            if up {
                64
            } else {
                65
            },
            false,
        ),
    };
    let mut code: u16 = base;
    if mods.alt {
        code = code + 8;
    }
    if mods.control {
        code = code + 16;
    }
    let mut out: Vec<u8> = Vec::new();
    out.push(0x1b);
    out.push(0x5b);
    if sgr {
        out.push(0x3c);
        push_decimal(&mut out, code as u64);
        out.push(0x3b);
        push_decimal(&mut out, col as u64);
        out.push(0x3b);
        push_decimal(&mut out, row as u64);
        out.push(
            if release {
                0x6d
            } else {
                0x4d
            },
        );
    } else {
        out.push(0x4d);
        out.push(
            to_offset_byte(
                if release {
                    3
                } else {
                    code
                },
            ),
        );
        out.push(to_offset_byte(col));
        out.push(to_offset_byte(row));
    }
    assert(out@ =~= report_bytes(report, col, row, mods, sgr));
    Some(out)
}

/// What the program in a pane has asked to be told of the pointer.
#[derive(Debug, Clone, Copy, PartialEq, Eq, Structural)]
pub struct Wants {
    /// Presses, releases and drags.
    pub mouse: bool,
    /// Motion without a button, too.
    pub motion: bool,
    /// Reports in decimal numbers.
    pub sgr: bool,
}

/// The cell under the pointer, counted from zero, and what its pane's program wants.
#[derive(Debug, Clone, Copy, PartialEq, Eq, Structural)]
pub struct Under {
    pub pane: u64,
    pub col: usize,
    pub row: usize,
    pub wants: Wants,
}

/// A press that was passed on: to which pane, and of which button.
#[derive(Debug, Clone, Copy, PartialEq, Eq, Structural)]
pub struct Pressed {
    pub pane: u64,
    pub button: u16,
}

/// A cell of a pane, counted from zero.
#[derive(Debug, Clone, Copy, PartialEq, Eq, Structural)]
pub struct Place {
    pub pane: u64,
    pub col: usize,
    pub row: usize,
}

/// What is being reported: the press that was passed on and not yet released, and the
/// cell that a program watching all motion was last told of.
#[derive(Debug, Clone, Copy, PartialEq, Eq, Structural)]
pub struct Pointer {
    pub pressed: Option<Pressed>,
    pub hover: Option<Place>,
}

impl Pointer {
    /// Whether the button of an outstanding press fits a report.
    pub open spec fn wf(&self) -> bool {
        match self.pressed {
            Some(p) => p.button <= MAX_BUTTON,
            None => true,
        }
    }
}

/// Bytes for the program in a pane.
#[derive(Debug, Clone)]
pub struct Delivery {
    pub pane: u64,
    pub bytes: Vec<u8>,
}

/// A coordinate as reports count it, from one; one too great for a report wraps first.
pub open spec fn from_one(n: usize) -> u16 {
    let low = n % 65536;
    if low == 65535 {
        65535u16
    } else {
        (low + 1) as u16
    }
}

fn count_from_one(n: usize) -> (r: u16)
    ensures
        r == from_one(n),
{
    let low: u16 = (n % 65536) as u16;
    if low == 65535 {
        low
    } else {
        low + 1
    }
}

/// Whether an action goes to a program: it lies over a cell whose program wants it.
pub open spec fn goes_to_program(under: Option<Under>) -> bool {
    under is Some && under->0.wants.mouse
}

/// Whether `d` delivers the report of an action over the cell `u`.
pub open spec fn delivers(d: Delivery, report: MouseReport, u: Under, mods: Mods) -> bool {
    d.pane == u.pane && d.bytes@ == report_bytes(
        report,
        from_one(u.col),
        from_one(u.row),
        mods,
        u.wants.sgr,
    )
}

/// The press that is outstanding after an action was passed on.
pub open spec fn pressed_after(before: Option<Pressed>, report: MouseReport, u: Under) -> Option<Pressed> {
    match report {
        MouseReport::Press(b) => Some(Pressed { pane: u.pane, button: b }),
        MouseReport::Release(_) => None,
        _ => before,
    }
}

/// Pass a pointer action on to the program under the pointer, if it asked for the mouse.
/// What is returned goes to that program, and nothing else then acts on the event. A
/// press is remembered until its release.
pub fn forward_mouse(pointer: &mut Pointer, report: MouseReport, under: Option<Under>, mods: Mods) -> (r: Option<
    Delivery,
>)
    requires
        report.wf(),
    ensures
        goes_to_program(under) ==> r is Some && delivers(r->0, report, under->0, mods) && *final(pointer) == (
        Pointer { pressed: pressed_after(old(pointer).pressed, report, under->0), ..*old(pointer) }),
        !goes_to_program(under) ==> r is None && *final(pointer) == *old(pointer),
        old(pointer).wf() ==> final(pointer).wf(),
{
    let u: Under = match under {
        Some(u) => u,
        None => return None,
    };
    if !u.wants.mouse {
        return None;
    }
    let bytes: Vec<u8> = match encode_mouse(
        report,
        count_from_one(u.col),
        count_from_one(u.row),
        mods,
        u.wants.sgr,
    ) {
        Some(bytes) => bytes,
        None => return None,
    };
    match report {
        MouseReport::Press(b) => {
            pointer.pressed = Some(Pressed { pane: u.pane, button: b });
        },
        MouseReport::Release(_) => {
            pointer.pressed = None;
        },
        _ => {},
    }
    Some(Delivery { pane: u.pane, bytes })
}

/// Whether `d` tells the pane that got a press of its release, at the first cell.
pub open spec fn releases_at_home(d: Delivery, pane: u64, button: u16, mods: Mods, sgr: bool) -> bool {
    d.pane == pane && d.bytes@ == report_bytes(MouseReport::Release(button), 1, 1, mods, sgr)
}

/// The release of a press that was passed on: to the program under the pointer or, where
/// the pointer has left every cell that wants it, to the one that got the press, so that
/// no program misses it. `origin` is what the program that got the press wants, if its
/// pane is still there. Says whether there was such a press, and what to deliver.
pub fn end_mouse_report(pointer: &mut Pointer, under: Option<Under>, origin: Option<Wants>, mods: Mods) -> (r: (
    bool,
    Option<Delivery>,
))
    requires
        old(pointer).wf(),
    ensures
        final(pointer).pressed is None,
        final(pointer).hover == old(pointer).hover,
        r.0 == (old(pointer).pressed is Some),
        match old(pointer).pressed {
            None => r.1 is None,
            Some(p) => if goes_to_program(under) {
                r.1 is Some && delivers(r.1->0, MouseReport::Release(p.button), under->0, mods)
            } else if origin is Some && origin->0.mouse {
                r.1 is Some && releases_at_home(r.1->0, p.pane, p.button, mods, origin->0.sgr)
            } else {
                r.1 is None
            },
        },
{
    let (pane, button): (u64, u16) = match pointer.pressed {
        Some(p) => (p.pane, p.button),
        None => return (false, None),
    };
    pointer.pressed = None;
    let sent: Option<Delivery> = forward_mouse(pointer, MouseReport::Release(button), under, mods);
    if sent.is_some() {
        return (true, sent);
    }
    if let Some(wants) = origin {
        if wants.mouse {
            if let Some(bytes) = encode_mouse(MouseReport::Release(button), 1, 1, mods, wants.sgr) {
                return (true, Some(Delivery { pane, bytes }));
            }
        }
    }
    (true, None)
}

/// The cell under the pointer.
pub open spec fn place_of(u: Under) -> Place {
    Place { pane: u.pane, col: u.col, row: u.row }
}

/// Tell a program that watches all motion of the cell the pointer is over, once per cell
/// entered. Says whether that program has the hover, and what to deliver.
pub fn forward_hover(pointer: &mut Pointer, under: Option<Under>, mods: Mods) -> (r: (bool, Option<Delivery>))
    ensures
        final(pointer).pressed == old(pointer).pressed,
        match under {
            Some(u) => if u.wants.motion {
                &&& r.0
                &&& final(pointer).hover == Some(place_of(u))
                &&& if old(pointer).hover == Some(place_of(u)) || !u.wants.mouse {
                    r.1 is None
                } else {
                    r.1 is Some && delivers(r.1->0, MouseReport::Move, u, mods)
                }
            } else {
                !r.0 && r.1 is None && final(pointer).hover is None
            },
            None => !r.0 && r.1 is None && final(pointer).hover is None,
        },
{
    let u: Under = match under {
        Some(u) => u,
        None => {
            pointer.hover = None;
            return (false, None);
        },
    };
    if !u.wants.motion {
        pointer.hover = None;
        return (false, None);
    }
    let here: Option<Place> = Some(Place { pane: u.pane, col: u.col, row: u.row });
    if pointer.hover == here {
        return (true, None);
    }
    pointer.hover = here;
    let sent: Option<Delivery> = forward_mouse(pointer, MouseReport::Move, Some(u), mods);
    (true, sent)
}

} // verus!
