//! What the dashboard shows: one row per container with a strip of bars, one
//! bar per recent sample, oldest on the left.

use vstd::prelude::*;
use crate::domain::{state_name, Container, Sample, SampleView};
use crate::text::{lemma_four_places, lemma_two_places, padded_int, push_padded, push_str};

verus! {

/// How many samples fit in a history strip. Older samples are not requested
/// from the store: reads return the newest first, so the oldest fall off the
/// left edge.
pub const HISTORY_BARS: usize = 60;

/// Drawn width of one bar, in pixels.
pub const BAR_WIDTH: usize = 5;

/// Horizontal pitch of one bar: its width plus the gap to the next one. The
/// whole pitch is hoverable, not just the painted part.
pub const BAR_PITCH: usize = 7;

/// One bar in a history strip.
#[derive(Debug, PartialEq, Eq)]
pub struct Bar {
    pub up: bool,
    /// Shown as a tooltip on hover.
    pub label: String,
}

/// The tooltip of a sample's bar: its instant in UTC, then its state, as
/// "YYYY-MM-DD hh:mm:ss UTC — state".
pub open spec fn bar_label(s: SampleView) -> Seq<char> {
    padded_int(s.at.year as int, 4) + "-"@ + padded_int(s.at.month as int, 2) + "-"@
        + padded_int(s.at.day as int, 2) + " "@ + padded_int(s.at.hour as int, 2) + ":"@
        + padded_int(s.at.minute as int, 2) + ":"@ + padded_int(s.at.second as int, 2)
        + " UTC — "@ + state_name(s.state)
}

/// The tooltip of a bar, character by character: four year digits, then two
/// digits each for month, day, hour, minute and second, zero-padded, with the
/// separators of "YYYY-MM-DD hh:mm:ss", then " UTC — " and the state's name.
pub proof fn lemma_bar_label_layout(s: SampleView)
    requires
        0 <= s.at.year < 10000,
        s.at.month < 100,
        s.at.day < 100,
        s.at.hour < 100,
        s.at.minute < 100,
        s.at.second < 100,
    ensures
        bar_label(s) == seq![
            (48 + s.at.year / 1000) as char,
            (48 + (s.at.year / 100) % 10) as char,
            (48 + (s.at.year / 10) % 10) as char,
            (48 + s.at.year % 10) as char,
            '-',
            (48 + s.at.month / 10) as char,
            (48 + s.at.month % 10) as char,
            '-',
            (48 + s.at.day / 10) as char,
            (48 + s.at.day % 10) as char,
            ' ',
            (48 + s.at.hour / 10) as char,
            (48 + s.at.hour % 10) as char,
            ':',
            (48 + s.at.minute / 10) as char,
            (48 + s.at.minute % 10) as char,
            ':',
            (48 + s.at.second / 10) as char,
            (48 + s.at.second % 10) as char,
        ] + " UTC — "@ + state_name(s.state),
        bar_label(s).len() == 26 + state_name(s.state).len(),
{
    lemma_four_places(s.at.year as int);
    lemma_two_places(s.at.month as int);
    lemma_two_places(s.at.day as int);
    lemma_two_places(s.at.hour as int);
    lemma_two_places(s.at.minute as int);
    lemma_two_places(s.at.second as int);
    reveal_strlit("-");
    reveal_strlit(" ");
    reveal_strlit(":");
    reveal_strlit(" UTC — ");
    let head = seq![
        (48 + s.at.year / 1000) as char,
        (48 + (s.at.year / 100) % 10) as char,
        (48 + (s.at.year / 10) % 10) as char,
        (48 + s.at.year % 10) as char,
        '-',
        (48 + s.at.month / 10) as char,
        (48 + s.at.month % 10) as char,
        '-',
        (48 + s.at.day / 10) as char,
        (48 + s.at.day % 10) as char,
        ' ',
        (48 + s.at.hour / 10) as char,
        (48 + s.at.hour % 10) as char,
        ':',
        (48 + s.at.minute / 10) as char,
        (48 + s.at.minute % 10) as char,
        ':',
        (48 + s.at.second / 10) as char,
        (48 + s.at.second % 10) as char,
    ];
    assert(bar_label(s) =~= head + " UTC — "@ + state_name(s.state));
}

impl Bar {
    pub fn new(sample: &Sample) -> (r: Bar)
        ensures
            r.up <==> sample@.state is Running,
            r.label@ == bar_label(sample@),
    {
        let at = sample.at;
        let mut label = String::new();
        push_padded(&mut label, at.year as i64, 4);
        push_str(&mut label, "-");
        push_padded(&mut label, at.month as i64, 2);
        push_str(&mut label, "-");
        push_padded(&mut label, at.day as i64, 2);
        push_str(&mut label, " ");
        push_padded(&mut label, at.hour as i64, 2);
        push_str(&mut label, ":");
        push_padded(&mut label, at.minute as i64, 2);
        push_str(&mut label, ":");
        push_padded(&mut label, at.second as i64, 2);
        push_str(&mut label, " UTC — ");
        push_str(&mut label, sample.state.as_str());
        Bar { up: sample.state.is_running(), label }
    }
}

/// A container plus its recent uptime, oldest sample first.
pub struct Row {
    pub container: Container,
    pub history: Vec<Bar>,
}

/// The bars for samples read newest first: the strip reads left to right, so
/// the newest sample sits at the right edge.
pub fn history_strip(newest_first: &Vec<Sample>) -> (r: Vec<Bar>)
    ensures
        r@.len() == newest_first@.len(),
        forall|i: int| 0 <= i < r@.len() ==> {
            let s = #[trigger] newest_first@[newest_first@.len() - 1 - i];
            &&& r@[i].up <==> s@.state is Running
            &&& r@[i].label@ == bar_label(s@)
        },
{
    let n = newest_first.len();
    let mut bars: Vec<Bar> = Vec::new();
    let mut k: usize = 0;
    while k < n
        invariant
            n == newest_first@.len(),
            k <= n,
            bars@.len() == k,
            forall|i: int| 0 <= i < k ==> {
                let s = #[trigger] newest_first@[n - 1 - i];
                &&& bars@[i].up <==> s@.state is Running
                &&& bars@[i].label@ == bar_label(s@)
            },
        decreases n - k,
    {
        bars.push(Bar::new(&newest_first[n - 1 - k]));
        k = k + 1;
    }
    bars
}

impl Row {
    /// A container's row, from its samples read newest first.
    pub fn new(container: Container, newest_first: &Vec<Sample>) -> (r: Row)
        ensures
            r.container == container,
            r.history@.len() == newest_first@.len(),
            forall|i: int| 0 <= i < r.history@.len() ==> {
                let s = #[trigger] newest_first@[newest_first@.len() - 1 - i];
                &&& r.history@[i].up <==> s@.state is Running
                &&& r.history@[i].label@ == bar_label(s@)
            },
    {
        Row { container, history: history_strip(newest_first) }
    }
}

/// Everything the dashboard page is drawn from.
pub struct Page {
    pub rows: Vec<Row>,
    /// Fixed width of every strip, whether or not there is enough history to
    /// fill it.
    pub strip_width: usize,
    pub bar_width: usize,
    pub bar_gap: usize,
}

impl Page {
    pub fn new(rows: Vec<Row>) -> (r: Page)
        ensures
            r.rows == rows,
            r.strip_width == HISTORY_BARS * BAR_PITCH,
            r.bar_width == BAR_WIDTH,
            r.bar_gap == BAR_PITCH - BAR_WIDTH,
    {
        Page { rows, strip_width: HISTORY_BARS * BAR_PITCH, bar_width: BAR_WIDTH, bar_gap: BAR_PITCH - BAR_WIDTH }
    }
}

} // verus!
