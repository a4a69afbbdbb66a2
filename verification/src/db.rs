//! The snapshot that the views read.
//!
//! A [`LockedDatabase`] is a read-only picture of the recorder's cameras and
//! streams, taken while the caller holds the lock. The views borrow from it
//! and never change it.

use std::collections::BTreeMap;
use std::ops::Range;
use vstd::prelude::*;

pub mod auth;

verus! {

/// The two kinds of stream that a camera can have, one for each of its slots.
#[derive(Clone, Copy, Debug, PartialEq, Eq, Structural)]
pub enum StreamType {
    MAIN,
    SUB,
}

impl StreamType {
    /// The slot of a camera that holds streams of this type.
    pub open spec fn slot(self) -> int {
        match self {
            StreamType::MAIN => 0,
            StreamType::SUB => 1,
        }
    }

    /// The name under which streams of this type go on the wire.
    pub open spec fn name(self) -> Seq<char> {
        match self {
            StreamType::MAIN => "main"@,
            StreamType::SUB => "sub"@,
        }
    }

    /// The type of the streams in slot `i`, for the two slots that exist.
    pub fn from_index(i: usize) -> (found: Option<StreamType>)
        ensures
            found == (if i == 0 {
                Some(StreamType::MAIN)
            } else if i == 1 {
                Some(StreamType::SUB)
            } else {
                None
            }),
            found matches Some(t) ==> t.slot() == i,
    {
        if i == 0 {
            Some(StreamType::MAIN)
        } else if i == 1 {
            Some(StreamType::SUB)
        } else {
            None
        }
    }

    /// The slot of a camera that holds streams of this type.
    pub fn index(self) -> (i: usize)
        ensures
            i == self.slot(),
    {
        match self {
            StreamType::MAIN => 0,
            StreamType::SUB => 1,
        }
    }

    /// The name under which streams of this type go on the wire.
    pub fn as_str(self) -> (name: &'static str)
        ensures
            name@ == self.name(),
    {
        match self {
            StreamType::MAIN => "main",
            StreamType::SUB => "sub",
        }
    }
}

/// The two names differ, so the two slots never share a key.
pub proof fn lemma_stream_type_names_differ()
    ensures
        StreamType::MAIN.name() != StreamType::SUB.name(),
{
    reveal_strlit("main");
    reveal_strlit("sub");
    assert("main"@.len() != "sub"@.len());
}

/// The decimal digits, by value.
pub open spec fn decimal_digits() -> Seq<char> {
    "0123456789"@
}

/// A calendar day and the span of time that it covers, in units of 1/90000
/// of a second.
pub struct Day {
    pub year: int,
    pub month: int,
    pub day: int,
    pub start: int,
    pub end: int,
}

impl Day {
    /// The date has a four-digit year, a month and a day of a month, and the
    /// day's span is not empty.
    pub open spec fn wf(self) -> bool {
        &&& 0 <= self.year <= 9999
        &&& 1 <= self.month <= 12
        &&& 1 <= self.day <= 31
        &&& self.start < self.end
    }

    /// Whether this day comes before `other` in the calendar.
    pub open spec fn precedes(self, other: Day) -> bool {
        ||| self.year < other.year
        ||| self.year == other.year && self.month < other.month
        ||| self.year == other.year && self.month == other.month && self.day < other.day
    }

    /// The canonical form of the date: `YYYY-MM-DD`.
    pub open spec fn text(self) -> Seq<char> {
        seq![
            decimal_digits()[self.year / 1000],
            decimal_digits()[self.year / 100 % 10],
            decimal_digits()[self.year / 10 % 10],
            decimal_digits()[self.year % 10],
            '-',
            decimal_digits()[self.month / 10],
            decimal_digits()[self.month % 10],
            '-',
            decimal_digits()[self.day / 10],
            decimal_digits()[self.day % 10],
        ]
    }
}

/// The text of one decimal digit.
fn digit_str(d: u8) -> (s: &'static str)
    requires
        d < 10,
    ensures
        s@ == seq![decimal_digits()[d as int]],
{
    proof {
        reveal_strlit("0123456789");
        reveal_strlit("0");
        reveal_strlit("1");
        reveal_strlit("2");
        reveal_strlit("3");
        reveal_strlit("4");
        reveal_strlit("5");
        reveal_strlit("6");
        reveal_strlit("7");
        reveal_strlit("8");
        reveal_strlit("9");
    }
    let s = match d {
        0 => "0",
        1 => "1",
        2 => "2",
        3 => "3",
        4 => "4",
        5 => "5",
        6 => "6",
        7 => "7",
        8 => "8",
        _ => "9",
    };
    assert(s@ =~= seq![decimal_digits()[d as int]]);
    s
}

/// The key of one day of a stream's recordings: a calendar date, together
/// with the bounds of that day on the recorder's clock.
#[derive(Clone, Copy, Debug, PartialEq, Eq)]
pub struct StreamDayKey {
    year: u16,
    month: u8,
    day: u8,
    start_90k: i64,
    end_90k: i64,
}

impl View for StreamDayKey {
    type V = Day;

    closed spec fn view(&self) -> Day {
        Day {
            year: self.year as int,
            month: self.month as int,
            day: self.day as int,
            start: self.start_90k as int,
            end: self.end_90k as int,
        }
    }
}

impl StreamDayKey {
    /// Every key is a well-formed day.
    #[verifier::type_invariant]
    pub open spec fn wf(self) -> bool {
        self@.wf()
    }

    /// The key of the day `year`-`month`-`day` that lasts from `bounds.start`
    /// to `bounds.end`; none where the date or the bounds are not those of a
    /// day.
    pub fn new(year: u16, month: u8, day: u8, bounds: Range<i64>) -> (made: Option<StreamDayKey>)
        ensures
            made is Some <==> (Day {
                year: year as int,
                month: month as int,
                day: day as int,
                start: bounds.start as int,
                end: bounds.end as int,
            }).wf(),
            made matches Some(key) ==> key.wf() && key@ == (Day {
                year: year as int,
                month: month as int,
                day: day as int,
                start: bounds.start as int,
                end: bounds.end as int,
            }),
    {
        if year <= 9999 && 1 <= month && month <= 12 && 1 <= day && day <= 31 && bounds.start
            < bounds.end {
            Some(
                StreamDayKey { year, month, day, start_90k: bounds.start, end_90k: bounds.end },
            )
        } else {
            None
        }
    }

    /// The canonical form of the key, `YYYY-MM-DD`.
    pub fn text(&self) -> (text: String)
        ensures
            text@ == self@.text(),
    {
        proof {
            use_type_invariant(self);
        }
        let mut text = String::new();
        text.append(digit_str((self.year / 1000) as u8));
        text.append(digit_str((self.year / 100 % 10) as u8));
        text.append(digit_str((self.year / 10 % 10) as u8));
        text.append(digit_str((self.year % 10) as u8));
        text.append("-");
        text.append(digit_str(self.month / 10));
        text.append(digit_str(self.month % 10));
        text.append("-");
        text.append(digit_str(self.day / 10));
        text.append(digit_str(self.day % 10));
        proof {
            reveal_strlit("-");
            assert(text@ =~= self@.text());
        }
        text
    }

    /// The bounds of the day: its first instant and the first instant after
    /// it.
    pub fn bounds(&self) -> (bounds: Range<i64>)
        ensures
            bounds.start == self@.start,
            bounds.end == self@.end,
            bounds.start < bounds.end,
    {
        proof {
            use_type_invariant(self);
        }
        self.start_90k..self.end_90k
    }

    /// Whether this key comes before `other` in the order of the map.
    pub fn precedes(&self, other: &StreamDayKey) -> (before: bool)
        ensures
            before == self@.precedes(other@),
    {
        self.year < other.year || (self.year == other.year && (self.month < other.month || (
        self.month == other.month && self.day < other.day)))
    }
}

/// What a stream has recorded on one day.
#[derive(Clone, Copy, Debug, PartialEq, Eq, Structural)]
pub struct StreamDayValue {
    /// The total duration recorded on the day, in units of 1/90000 of a
    /// second.
    pub duration: i64,
}

/// One day of a stream, as the contracts see it.
pub struct DayEntry {
    pub day: Day,
    pub duration: int,
}

/// What holds of the days of every stream: each is a well-formed day, none
/// holds more recorded time than the day lasts, and they stand in strictly
/// ascending order of their dates.
pub open spec fn days_wf(days: Seq<DayEntry>) -> bool {
    &&& forall|i: int| 0 <= i < days.len() ==> (#[trigger] days[i]).day.wf()
    &&& forall|i: int|
        0 <= i < days.len() ==> (#[trigger] days[i]).duration <= days[i].day.end
            - days[i].day.start
    &&& forall|i: int, j: int|
        0 <= i < j < days.len() ==> (#[trigger] days[i]).day.precedes((#[trigger] days[j]).day)
}

/// The days of one stream, ordered by date.
#[derive(Debug)]
pub struct StreamDays {
    entries: Vec<(StreamDayKey, StreamDayValue)>,
}

/// The days that a sequence of keys and values stands for.
pub open spec fn entries_view(entries: Seq<(StreamDayKey, StreamDayValue)>) -> Seq<DayEntry> {
    Seq::new(
        entries.len(),
        |i: int| DayEntry { day: entries[i].0@, duration: entries[i].1.duration as int },
    )
}

impl View for StreamDays {
    type V = Seq<DayEntry>;

    closed spec fn view(&self) -> Seq<DayEntry> {
        entries_view(self.entries@)
    }
}

impl StreamDays {
    /// The days of every stream are well-formed, hold no more recorded time
    /// than they last, and ascend.
    #[verifier::type_invariant]
    pub open spec fn wf(self) -> bool {
        days_wf(self@)
    }

    /// The days of `entries`, where these stand in strictly ascending order
    /// of their dates and none holds more recorded time than its day lasts;
    /// none otherwise.
    pub fn from_entries(entries: Vec<(StreamDayKey, StreamDayValue)>) -> (made: Option<StreamDays>)
        ensures
            made is Some <==> days_wf(entries_view(entries@)),
            made matches Some(days) ==> days.wf() && days@ == entries_view(entries@),
    {
        let ghost days = entries_view(entries@);
        let mut i: usize = 0;
        while i < entries.len()
            invariant
                i <= entries@.len(),
                days == entries_view(entries@),
                days_wf(days.subrange(0, i as int)),
            decreases entries@.len() - i,
        {
            let key = &entries[i].0;
            let bounds = key.bounds();
            proof {
                use_type_invariant(key);
            }
            let fits = (entries[i].1.duration as i128) <= (bounds.end as i128) - (
            bounds.start as i128);
            if !fits || (i > 0 && !entries[i - 1].0.precedes(key)) {
                proof {
                    let k = i as int;
                    assert(days[k].day == entries@[k].0@);
                    if k > 0 {
                        assert(days[k - 1].day == entries@[k - 1].0@);
                    }
                }
                return None;
            }
            proof {
                let k = i as int;
                let before = days.subrange(0, k);
                let after = days.subrange(0, k + 1);
                assert(after[k].day == entries@[k].0@);
                assert forall|a: int, b: int| 0 <= a < b < after.len() implies (
                #[trigger] after[a]).day.precedes((#[trigger] after[b]).day) by {
                    if b < k {
                        assert(before[a].day.precedes(before[b].day));
                    } else if a < k - 1 {
                        assert(before[a].day.precedes(before[k - 1].day));
                    }
                }
                assert forall|a: int| 0 <= a < after.len() implies (#[trigger] after[a]).day.wf()
                    && after[a].duration <= after[a].day.end - after[a].day.start by {
                    if a < k {
                        assert(before[a].day.wf());
                    }
                }
            }
            i += 1;
        }
        proof {
            assert(days.subrange(0, i as int) =~= days);
        }
        Some(StreamDays { entries })
    }

    /// The days, in ascending order of their dates.
    pub fn entries(&self) -> (entries: &Vec<(StreamDayKey, StreamDayValue)>)
        ensures
            entries_view(entries@) == self@,
            days_wf(self@),
    {
        proof {
            use_type_invariant(self);
        }
        &self.entries
    }

    /// The number of days.
    pub fn len(&self) -> (n: usize)
        ensures
            n == self@.len(),
    {
        self.entries.len()
    }
}

/// One stream of a camera, as the recorder holds it.
#[derive(Debug)]
pub struct Stream {
    pub id: i32,
    /// How many bytes of sample files the stream may keep.
    pub retain_bytes: i64,
    /// From the start of the earliest recording to the end of the latest,
    /// where there is a recording.
    pub range: Option<Range<i64>>,
    /// The total duration of all recordings.
    pub duration: i64,
    /// The total size of all sample files.
    pub sample_file_bytes: i64,
    pub days: StreamDays,
}

/// One camera, as the recorder holds it. Slot `i` of `streams` names the
/// camera's stream of type `StreamType::from_index(i)`, if it has one.
#[derive(Debug)]
pub struct Camera {
    pub id: i32,
    pub uuid: [u8; 16],
    pub short_name: String,
    pub description: String,
    pub streams: [Option<i32>; 2],
}

/// A read-only picture of the recorder's cameras and streams, each kept
/// under its id.
#[derive(Debug)]
pub struct LockedDatabase {
    cameras_by_id: BTreeMap<i32, Camera>,
    streams_by_id: BTreeMap<i32, Stream>,
}

impl LockedDatabase {
    /// The cameras of the snapshot, by id.
    pub closed spec fn cameras(&self) -> Map<i32, Camera> {
        self.cameras_by_id@
    }

    /// The streams of the snapshot, by id.
    pub closed spec fn streams(&self) -> Map<i32, Stream> {
        self.streams_by_id@
    }

    /// A snapshot holds finitely many cameras and streams.
    pub proof fn lemma_finite(&self)
        ensures
            self.cameras().dom().finite(),
            self.streams().dom().finite(),
    {
        broadcast use vstd::std_specs::btree::group_btree_axioms;

    }

    /// The snapshot of the given cameras and streams.
    pub fn new(cameras_by_id: BTreeMap<i32, Camera>, streams_by_id: BTreeMap<i32, Stream>) -> (db:
        LockedDatabase)
        ensures
            db.cameras() == cameras_by_id@,
            db.streams() == streams_by_id@,
    {
        LockedDatabase { cameras_by_id, streams_by_id }
    }

    /// The cameras, ordered by id.
    pub fn cameras_by_id(&self) -> (cameras: &BTreeMap<i32, Camera>)
        ensures
            cameras@ == self.cameras(),
    {
        &self.cameras_by_id
    }

    /// The streams, ordered by id.
    pub fn streams_by_id(&self) -> (streams: &BTreeMap<i32, Stream>)
        ensures
            streams@ == self.streams(),
    {
        &self.streams_by_id
    }
}

} // verus!
