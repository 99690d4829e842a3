//! The animation shown while Gmail is searched: a spinner, the stage of the
//! search, a progress meter and three scanning lanes, each a function of the
//! frame counter.
use vstd::prelude::*;

use crate::i18n::Messages;
use crate::text::{chars_of, owned, push_char, zero_padded, zero_padded_string};

verus! {

/// The cells of the progress meter.
pub const BAR_WIDTH: usize = 38;

/// The cells of a scanning lane.
pub const SCAN_WIDTH: usize = 44;

/// The stage named at `frame`: each stage shows for eight frames, in turn.
pub open spec fn stage_index(frame: nat) -> nat {
    (frame / 8) % 4
}

/// The stage of the search named at `frame`.
pub fn stage(frame: usize, text: &Messages) -> (s: &'static str)
    ensures
        s == (if stage_index(frame as nat) == 0 {
            text.search_loader_stage_query
        } else if stage_index(frame as nat) == 1 {
            text.search_loader_stage_pdf
        } else if stage_index(frame as nat) == 2 {
            text.search_loader_stage_json
        } else {
            text.search_loader_stage_match
        }),
{
    match (frame / 8) % 4 {
        0 => text.search_loader_stage_query,
        1 => text.search_loader_stage_pdf,
        2 => text.search_loader_stage_json,
        _ => text.search_loader_stage_match,
    }
}

/// The spinner at `frame`: `|`, `/`, `-`, `\` in turn.
pub fn spinner(frame: usize) -> (s: &'static str)
    ensures
        s@ == (if frame % 4 == 0 {
            "|"@
        } else if frame % 4 == 1 {
            "/"@
        } else if frame % 4 == 2 {
            "-"@
        } else {
            "\\"@
        }),
{
    match frame % 4 {
        0 => "|",
        1 => "/",
        2 => "-",
        _ => "\\",
    }
}

/// The progress shown at `frame`: three percent a frame, starting over at
/// one hundred.
pub fn progress(frame: usize) -> (p: usize)
    ensures
        p == (frame * 3) % 100,
        p < 100,
{
    let p = (frame % 100) * 3 % 100;
    proof {
        assert((frame % 100) * 3 % 100 == (frame * 3) % 100) by (nonlinear_arith);
    }
    p
}

/// How many cells of the meter are filled at `progress` percent: at least
/// one.
pub open spec fn filled_cells(progress: nat) -> nat {
    let n = BAR_WIDTH * progress / 100;
    if n >= 1 {
        n as nat
    } else {
        1
    }
}

/// A cell of the progress meter: filled or not, and, when filled, lit.
#[derive(Clone, Copy, Debug, PartialEq, Eq, Structural)]
pub struct MeterCell {
    pub filled: bool,
    pub bright: bool,
}

/// The cells of the meter at `progress` percent and `frame`: the first
/// `filled_cells` filled, every fifth one (counted with the frame) lit.
pub fn meter_cells(progress: usize, frame: usize) -> (cells: Vec<MeterCell>)
    requires
        progress < 100,
    ensures
        cells@.len() == BAR_WIDTH,
        forall|i: int| 0 <= i < BAR_WIDTH ==> (#[trigger] cells@[i]).filled == (i < filled_cells(progress as nat))
            && cells@[i].bright == ((i + frame) % 5 == 0),
{
    let n = BAR_WIDTH * progress / 100;
    let filled = if n >= 1 { n } else { 1 };
    let mut cells: Vec<MeterCell> = Vec::new();
    let mut i: usize = 0;
    while i < BAR_WIDTH
        invariant
            i <= BAR_WIDTH,
            filled == filled_cells(progress as nat),
            cells@.len() == i,
            forall|k: int| 0 <= k < i ==> (#[trigger] cells@[k]).filled == (k < filled_cells(progress as nat))
                && cells@[k].bright == ((k + frame) % 5 == 0),
        decreases BAR_WIDTH - i,
    {
        let bright = (i % 5 + frame % 5) % 5 == 0;
        proof {
            assert((i % 5 + frame % 5) % 5 == (i + frame) % 5) by (nonlinear_arith);
        }
        cells.push(MeterCell { filled: i < filled, bright });
        i = i + 1;
    }
    cells
}

/// What follows the meter: `] NN%`, the percent on two digits.
pub fn percent_text(progress: usize) -> (s: String)
    requires
        progress < 100,
    ensures
        s@ == "] "@ + zero_padded(progress as nat, 2) + "%"@,
{
    let mut s = owned("] ");
    let digits = zero_padded_string(progress as u64, 2);
    s.append(digits.as_str());
    s.append("%");
    s
}

/// A cell of a scanning lane, by its distance to the head.
#[derive(Clone, Copy, Debug, PartialEq, Eq, Structural)]
pub enum ScanCell {
    /// The head itself.
    Head,
    /// One or two cells away.
    Near,
    /// Three or four cells away.
    Trail,
    /// Further.
    Empty,
}

/// The cell `distance` cells away from the head.
pub open spec fn scan_cell_at(distance: nat) -> ScanCell {
    if distance == 0 {
        ScanCell::Head
    } else if distance <= 2 {
        ScanCell::Near
    } else if distance <= 4 {
        ScanCell::Trail
    } else {
        ScanCell::Empty
    }
}

/// The distance between two cells.
pub open spec fn distance(a: int, b: int) -> nat {
    if a >= b {
        (a - b) as nat
    } else {
        (b - a) as nat
    }
}

/// The cells of a lane whose head is at `frame + offset`, counted around the
/// lane.
pub fn scan_cells(frame: usize, offset: usize) -> (cells: Vec<ScanCell>)
    ensures
        cells@.len() == SCAN_WIDTH,
        forall|i: int| 0 <= i < SCAN_WIDTH ==> #[trigger] cells@[i] == scan_cell_at(distance((frame + offset) % (SCAN_WIDTH as int), i)),
{
    let head = (frame % SCAN_WIDTH + offset % SCAN_WIDTH) % SCAN_WIDTH;
    proof {
        assert((frame % 44 + offset % 44) % 44 == (frame + offset) % 44) by (nonlinear_arith);
    }
    let mut cells: Vec<ScanCell> = Vec::new();
    let mut i: usize = 0;
    while i < SCAN_WIDTH
        invariant
            i <= SCAN_WIDTH,
            head == (frame + offset) % (SCAN_WIDTH as int),
            cells@.len() == i,
            forall|k: int| 0 <= k < i ==> #[trigger] cells@[k] == scan_cell_at(distance(head as int, k)),
        decreases SCAN_WIDTH - i,
    {
        let d = if head >= i { head - i } else { i - head };
        let cell = if d == 0 {
            ScanCell::Head
        } else if d <= 2 {
            ScanCell::Near
        } else if d <= 4 {
            ScanCell::Trail
        } else {
            ScanCell::Empty
        };
        cells.push(cell);
        i = i + 1;
    }
    cells
}

/// The label of a lane: padded with spaces to ten characters, then a space.
pub open spec fn lane_label_spec(label: Seq<char>) -> Seq<char> {
    let padding: nat = if label.len() < 10 { (10 - label.len()) as nat } else { 0 };
    label + Seq::new(padding, |i: int| ' ') + " "@
}

/// The label of a lane (see `lane_label_spec`).
pub fn lane_label(label: &str) -> (s: String)
    ensures
        s@ == lane_label_spec(label@),
{
    let n = chars_of(label).len();
    let mut s = owned(label);
    let mut k: usize = n;
    let ghost padding: nat = if label@.len() < 10 { (10 - label@.len()) as nat } else { 0 };
    while k < 10
        invariant
            n == label@.len(),
            n <= k,
            k <= 10 || k == n,
            s@ == label@ + Seq::new((k - n) as nat, |i: int| ' '),
        decreases 10 - k,
    {
        push_char(&mut s, ' ');
        proof {
            assert(s@ =~= label@ + Seq::new((k + 1 - n) as nat, |i: int| ' '));
        }
        k = k + 1;
    }
    proof {
        assert((k - n) as nat == padding);
    }
    push_char(&mut s, ' ');
    proof {
        reveal_strlit(" ");
        assert(s@ =~= lane_label_spec(label@));
    }
    s
}

} // verus!
