//! Heart-rate readings as the store holds them.
//!
//! A reading is stored with its RR intervals written out as decimal numbers
//! separated by commas, and with a label for the activity it belongs to
//! once the readings have been segmented. This module reads such rows back
//! and says which readings a segmentation pass may label.

use crate::record::{RecordView, TelemetryRecord};
use vstd::prelude::*;
use vstd::string::StringExecFns;

verus! {

/// The most readings that one search returns.
pub const SEARCH_LIMIT: usize = 100000;

/// A reading as the store holds it.
#[derive(Debug)]
pub struct HeartRateReading {
    /// Time of the sample, seconds since 1970.
    pub time: i64,
    /// Beats per minute.
    pub bpm: i16,
    /// The RR intervals in milliseconds, decimal, separated by commas.
    pub rr_intervals: String,
    /// The activity label, once one has been assigned.
    pub activity: Option<i64>,
}

/// A stored reading as a mathematical value.
pub struct ReadingView {
    pub time: i64,
    pub bpm: i16,
    pub rr_intervals: Seq<char>,
    pub activity: Option<i64>,
}

impl View for HeartRateReading {
    type V = ReadingView;

    open spec fn view(&self) -> ReadingView {
        ReadingView {
            time: self.time,
            bpm: self.bpm,
            rr_intervals: self.rr_intervals@,
            activity: self.activity,
        }
    }
}

/// The views of a run of stored readings.
pub open spec fn reading_views(rows: Seq<HeartRateReading>) -> Seq<ReadingView> {
    rows.map_values(|r: HeartRateReading| r@)
}

/// A labelled reading, read back from the store.
#[derive(Debug)]
pub struct ParsedHistoryReading {
    pub time: i64,
    pub bpm: u8,
    pub rr: Vec<u16>,
    pub activity: i64,
}

/// A labelled reading as a mathematical value.
pub struct ParsedReadingView {
    pub time: i64,
    pub bpm: u8,
    pub rr: Seq<u16>,
    pub activity: i64,
}

impl View for ParsedHistoryReading {
    type V = ParsedReadingView;

    open spec fn view(&self) -> ParsedReadingView {
        ParsedReadingView { time: self.time, bpm: self.bpm, rr: self.rr@, activity: self.activity }
    }
}

/// The views of a run of labelled readings.
pub open spec fn parsed_reading_views(readings: Seq<ParsedHistoryReading>) -> Seq<
    ParsedReadingView,
> {
    readings.map_values(|r: ParsedHistoryReading| r@)
}

/// Whether `c` is one of the digits `0` to `9`.
pub open spec fn is_digit(c: char) -> bool {
    '0' <= c && c <= '9'
}

/// The number that the decimal digits `digits` write.
pub open spec fn decimal_value(digits: Seq<char>) -> nat
    decreases digits.len(),
{
    if digits.len() == 0 {
        0
    } else {
        (decimal_value(digits.drop_last()) * 10 + (digits.last() as u32 - '0' as u32)) as nat
    }
}

/// Whether `text` holds decimal digits and nothing else.
pub open spec fn all_digits(text: Seq<char>) -> bool {
    forall|i: int| 0 <= i < text.len() ==> is_digit(#[trigger] text[i])
}

/// `text` without the plus sign that may stand in front of a number.
pub open spec fn unsigned_part(text: Seq<char>) -> Seq<char> {
    if text.len() > 0 && text[0] == '+' {
        text.skip(1)
    } else {
        text
    }
}

/// The number that `text` writes, if it writes one that fits 16 bits: an
/// optional plus sign, then one decimal digit or more and nothing else.
pub open spec fn parsed_u16(text: Seq<char>) -> Option<u16> {
    let digits = unsigned_part(text);
    if digits.len() > 0 && all_digits(digits) && decimal_value(digits) <= u16::MAX {
        Some(decimal_value(digits) as u16)
    } else {
        None
    }
}

/// The texts between the commas of `text`, in order. A text without a
/// comma is one piece.
pub open spec fn comma_pieces(text: Seq<char>) -> Seq<Seq<char>>
    decreases text.len(),
{
    if text.len() == 0 {
        seq![Seq::empty()]
    } else {
        let before = comma_pieces(text.drop_last());
        if text.last() == ',' {
            before.push(Seq::empty())
        } else {
            before.drop_last().push(before.last().push(text.last()))
        }
    }
}

/// The interval that one piece of the text stands for: the number written,
/// or zero where the piece writes none.
pub open spec fn interval_of(piece: Seq<char>) -> u16 {
    match parsed_u16(piece) {
        Some(value) => value,
        None => 0,
    }
}

/// The RR intervals that the stored text stands for: none for the empty
/// text, and otherwise one for every piece between the commas.
pub open spec fn stored_rr(text: Seq<char>) -> Seq<u16> {
    if text.len() == 0 {
        Seq::empty()
    } else {
        comma_pieces(text).map_values(|piece: Seq<char>| interval_of(piece))
    }
}

/// The heart rate that the stored number stands for: the number itself
/// where it fits eight bits, and 255 where it does not.
pub open spec fn stored_bpm(bpm: i16) -> u8 {
    if 0 <= bpm <= 255 {
        bpm as u8
    } else {
        u8::MAX
    }
}

/// The labelled reading that a stored row with a label stands for.
pub open spec fn parsed_reading(row: ReadingView) -> ParsedReadingView
    recommends
        row.activity is Some,
{
    ParsedReadingView {
        time: row.time,
        bpm: stored_bpm(row.bpm),
        rr: stored_rr(row.rr_intervals),
        activity: row.activity->0,
    }
}

/// Calls `str::parse` for a `u16`: the number that the text writes in
/// decimal digits, with an optional plus sign in front, and `None` for any
/// other text and for a number above 65535.
#[verifier::external_body]
fn parse_u16(text: &str) -> (value: Option<u16>)
    ensures
        value == parsed_u16(text@),
{
    text.parse::<u16>().ok()
}

/// Reads the RR intervals back from their stored text.
///
/// The empty text holds no interval. Any other text is cut at its commas,
/// and a piece that is no number counts as zero.
pub fn parse_rr_intervals(text: &str) -> (rr: Vec<u16>)
    ensures
        rr@ == stored_rr(text@),
{
    let mut rr: Vec<u16> = Vec::new();
    if text.is_empty() {
        return rr;
    }
    let mut piece = String::new();
    let mut chars = text.chars();
    for c in it: chars
        invariant
            it.seq() == text@,
            comma_pieces(text@.take(it.index() as int)).len() == rr@.len() + 1,
            comma_pieces(text@.take(it.index() as int)).last() == piece@,
            forall|k: int|
                0 <= k < rr@.len() ==> rr@[k] == interval_of(
                    #[trigger] comma_pieces(text@.take(it.index() as int))[k],
                ),
    {
        proof {
            let next = text@.take(it.index() + 1);
            assert(next.drop_last() =~= text@.take(it.index() as int));
        }
        if c == ',' {
            let value = match parse_u16(piece.as_str()) {
                Some(value) => value,
                None => 0,
            };
            rr.push(value);
            piece = String::new();
        } else {
            piece.push(c);
        }
    }
    proof {
        assert(text@.take(text@.len() as int) =~= text@);
    }
    let value = match parse_u16(piece.as_str()) {
        Some(value) => value,
        None => 0,
    };
    rr.push(value);
    rr
}

impl HeartRateReading {
    /// Reads a labelled reading back from its stored row.
    ///
    /// The row must carry a label. A heart rate that does not fit eight
    /// bits is read as 255.
    pub fn parse_reading(&self) -> (reading: ParsedHistoryReading)
        requires
            self.activity is Some,
        ensures
            reading@ == parsed_reading(self@),
    {
        let bpm: u8 = if 0 <= self.bpm && self.bpm <= 255 {
            self.bpm as u8
        } else {
            u8::MAX
        };
        ParsedHistoryReading {
            time: self.time,
            bpm,
            rr: parse_rr_intervals(self.rr_intervals.as_str()),
            activity: self.activity.unwrap(),
        }
    }
}

/// Which readings a search is for.
#[derive(Clone, Copy, Debug)]
pub struct SearchHistory {
    /// Only readings later than this time, seconds since 1970, if given.
    pub from: Option<i64>,
}

/// Whether a reading taken at `time` is late enough for a search from
/// `from`.
pub open spec fn late_enough(from: Option<i64>, time: i64) -> bool {
    match from {
        Some(bound) => time > bound,
        None => true,
    }
}

/// Whether a search for labelled readings from `from` on admits `row`.
pub open spec fn admits_labelled(from: Option<i64>, row: ReadingView) -> bool {
    late_enough(from, row.time) && row.activity is Some
}

/// Whether a search for readings still to be labelled, from `from` on,
/// admits `row`.
pub open spec fn admits_unlabelled(from: Option<i64>, row: ReadingView) -> bool {
    late_enough(from, row.time) && row.activity is None
}

/// What a search for labelled readings finds among the first `upto` rows:
/// the rows admitted, in their order, read back, up to the limit.
pub open spec fn found_labelled(rows: Seq<ReadingView>, from: Option<i64>, upto: int) -> Seq<
    ParsedReadingView,
>
    decreases upto,
{
    if upto <= 0 {
        Seq::empty()
    } else {
        let before = found_labelled(rows, from, upto - 1);
        if before.len() < SEARCH_LIMIT && admits_labelled(from, rows[upto - 1]) {
            before.push(parsed_reading(rows[upto - 1]))
        } else {
            before
        }
    }
}

/// The positions among the first `upto` rows of the readings still to be
/// labelled, in rising order.
pub open spec fn found_unlabelled(rows: Seq<ReadingView>, from: Option<i64>, upto: int) -> Seq<
    int,
>
    decreases upto,
{
    if upto <= 0 {
        Seq::empty()
    } else if admits_unlabelled(from, rows[upto - 1]) {
        found_unlabelled(rows, from, upto - 1).push(upto - 1)
    } else {
        found_unlabelled(rows, from, upto - 1)
    }
}

impl SearchHistory {
    /// Whether a reading taken at `time` meets the conditions on time.
    pub fn conditions(&self, time: i64) -> (met: bool)
        ensures
            met == late_enough(self.from, time),
    {
        match self.from {
            Some(bound) => time > bound,
            None => true,
        }
    }
}

/// Searches `rows`, given in stored order, for labelled readings.
///
/// Returns the readings that are late enough and carry a label, in stored
/// order, read back from their rows, and no more of them than the limit.
pub fn search_history(rows: &Vec<HeartRateReading>, options: SearchHistory) -> (history: Vec<
    ParsedHistoryReading,
>)
    ensures
        parsed_reading_views(history@) == found_labelled(
            reading_views(rows@),
            options.from,
            rows@.len() as int,
        ),
{
    let ghost views = reading_views(rows@);
    let mut history: Vec<ParsedHistoryReading> = Vec::new();
    let mut i: usize = 0;
    while i < rows.len()
        invariant
            i <= rows@.len(),
            views == reading_views(rows@),
            parsed_reading_views(history@) == found_labelled(views, options.from, i as int),
        decreases rows@.len() - i,
    {
        if history.len() < SEARCH_LIMIT && options.conditions(rows[i].time)
            && rows[i].activity.is_some() {
            let reading = rows[i].parse_reading();
            history.push(reading);
        }
        i += 1;
    }
    history
}

/// Selects from `rows` the readings that a segmentation pass is to label:
/// those late enough that carry no label yet. Returns their positions.
pub fn select_unlabelled(rows: &Vec<HeartRateReading>, from: Option<i64>) -> (selected: Vec<usize>)
    ensures
        selected@.map_values(|i: usize| i as int) == found_unlabelled(
            reading_views(rows@),
            from,
            rows@.len() as int,
        ),
{
    let ghost views = reading_views(rows@);
    let options = SearchHistory { from };
    let mut selected: Vec<usize> = Vec::new();
    let mut i: usize = 0;
    while i < rows.len()
        invariant
            i <= rows@.len(),
            options.from == from,
            views == reading_views(rows@),
            selected@.map_values(|i: usize| i as int) == found_unlabelled(views, from, i as int),
        decreases rows@.len() - i,
    {
        let unlabelled = match rows[i].activity {
            Some(_) => false,
            None => true,
        };
        if unlabelled && options.conditions(rows[i].time) {
            selected.push(i);
        }
        i += 1;
    }
    selected
}

/// A row after a segmentation pass that proposes `label` for it: a row
/// that carried a label keeps it, a row that carried none and is late
/// enough receives the one proposed, and nothing else changes.
pub open spec fn labelled_row(row: ReadingView, from: Option<i64>, label: i64) -> ReadingView {
    if admits_unlabelled(from, row) {
        ReadingView { activity: Some(label), ..row }
    } else {
        row
    }
}

/// All rows after a segmentation pass that proposes `labels[i]` for row
/// `i`. A row for which nothing is proposed stays as it is.
pub open spec fn labelled_rows(rows: Seq<ReadingView>, from: Option<i64>, labels: Seq<i64>)
    -> Seq<ReadingView> {
    Seq::new(
        rows.len(),
        |i: int|
            if i < labels.len() {
                labelled_row(rows[i], from, labels[i])
            } else {
                rows[i]
            },
    )
}

/// Writes the labels of a segmentation pass to the rows.
///
/// `labels` holds the label that the pass proposes for each row, in the
/// order of the rows. Only rows that the pass selects, late enough and
/// without a label, receive theirs; a row for which `labels` holds nothing
/// is left as it is.
pub fn assign_labels(rows: &mut Vec<HeartRateReading>, from: Option<i64>, labels: &Vec<i64>)
    ensures
        reading_views(final(rows)@) == labelled_rows(reading_views(old(rows)@), from, labels@),
{
    let ghost before = reading_views(rows@);
    let options = SearchHistory { from };
    let n = if rows.len() < labels.len() {
        rows.len()
    } else {
        labels.len()
    };
    let mut i: usize = 0;
    while i < n
        invariant
            i <= n,
            n <= rows@.len(),
            n <= labels@.len(),
            rows@.len() == before.len(),
            n == rows@.len() || n == labels@.len(),
            options.from == from,
            forall|k: int|
                0 <= k < i ==> (#[trigger] rows@[k])@ == labelled_row(
                    before[k],
                    from,
                    labels@[k],
                ),
            forall|k: int| i <= k < rows@.len() ==> (#[trigger] rows@[k])@ == before[k],
        decreases n - i,
    {
        let unlabelled = match rows[i].activity {
            Some(_) => false,
            None => true,
        };
        if unlabelled && options.conditions(rows[i].time) {
            rows[i].activity = Some(labels[i]);
        }
        i += 1;
    }
}

/// A segmentation pass changes nothing when it is run again: after one
/// pass no row is left for a second pass to select, whatever labels the
/// second pass proposes.
pub proof fn lemma_labelling_idempotent(
    rows: Seq<ReadingView>,
    from: Option<i64>,
    first: Seq<i64>,
    second: Seq<i64>,
)
    requires
        first.len() == rows.len(),
        second.len() == rows.len(),
    ensures
        labelled_rows(labelled_rows(rows, from, first), from, second) == labelled_rows(
            rows,
            from,
            first,
        ),
        found_unlabelled(labelled_rows(rows, from, first), from, rows.len() as int).len() == 0,
{
    let once = labelled_rows(rows, from, first);
    lemma_nothing_left(once, from, rows.len() as int);
}

/// Rows of which none is admitted leave nothing to select.
proof fn lemma_nothing_left(rows: Seq<ReadingView>, from: Option<i64>, upto: int)
    requires
        0 <= upto <= rows.len(),
        forall|i: int| 0 <= i < rows.len() ==> !admits_unlabelled(from, #[trigger] rows[i]),
    ensures
        found_unlabelled(rows, from, upto).len() == 0,
    decreases upto,
{
    if upto > 0 {
        lemma_nothing_left(rows, from, upto - 1);
    }
}

/// A segmentation pass never touches a label that was there before it.
pub proof fn lemma_labels_kept(rows: Seq<ReadingView>, from: Option<i64>, labels: Seq<i64>, i: int)
    requires
        labels.len() == rows.len(),
        0 <= i < rows.len(),
        rows[i].activity is Some,
    ensures
        labelled_rows(rows, from, labels)[i] == rows[i],
{
}

/// The decimal digits that write `value`, without leading zeros; zero is
/// written as one digit.
pub open spec fn decimal_digits(value: nat) -> Seq<char>
    decreases value,
{
    if value < 10 {
        seq![digit_char(value)]
    } else {
        decimal_digits(value / 10).push(digit_char(value % 10))
    }
}

/// The character that writes the digit `digit`.
pub open spec fn digit_char(digit: nat) -> char
    recommends
        digit < 10,
{
    (('0' as u32) + digit as u32) as char
}

/// The stored text of the intervals `rr`: their decimal forms with a comma
/// between each two.
pub open spec fn rr_text(rr: Seq<u16>) -> Seq<char>
    decreases rr.len(),
{
    if rr.len() == 0 {
        Seq::empty()
    } else if rr.len() == 1 {
        decimal_digits(rr[0] as nat)
    } else {
        rr_text(rr.drop_last()) + seq![','] + decimal_digits(rr.last() as nat)
    }
}

/// Calls `ToString::to_string` on a `u16`: the number in decimal digits,
/// with no sign and no leading zeros.
#[verifier::external_body]
fn u16_to_text(value: u16) -> (text: String)
    ensures
        text@ == decimal_digits(value as nat),
{
    value.to_string()
}

/// Writes RR intervals as the text in which they are stored.
pub fn format_rr_intervals(rr: &[u16]) -> (text: String)
    ensures
        text@ == rr_text(rr@),
{
    let mut text = String::new();
    let mut i: usize = 0;
    while i < rr.len()
        invariant
            i <= rr@.len(),
            text@ == rr_text(rr@.take(i as int)),
        decreases rr@.len() - i,
    {
        proof {
            let next = rr@.take(i + 1);
            assert(next.drop_last() =~= rr@.take(i as int));
        }
        if i > 0 {
            text.push(',');
        }
        let digits = u16_to_text(rr[i]);
        text.append(digits.as_str());
        i += 1;
    }
    proof {
        assert(rr@.take(i as int) =~= rr@);
    }
    text
}

impl HeartRateReading {
    /// The row under which a decoded record is stored: its time, its heart
    /// rate, its RR intervals as text, and no label yet.
    pub fn from_record(record: &TelemetryRecord) -> (row: HeartRateReading)
        ensures
            row@ == (ReadingView {
                time: record.timestamp as i64,
                bpm: record.heart_rate_bpm as i16,
                rr_intervals: rr_text(record.rr_intervals@),
                activity: None,
            }),
    {
        HeartRateReading {
            time: record.timestamp as i64,
            bpm: record.heart_rate_bpm as i16,
            rr_intervals: format_rr_intervals(record.rr_intervals.as_slice()),
            activity: None,
        }
    }
}

/// The decimal form of a number holds digits only, at least one, and
/// writes that number.
pub proof fn lemma_decimal_round_trip(value: nat)
    ensures
        decimal_digits(value).len() > 0,
        all_digits(decimal_digits(value)),
        decimal_value(decimal_digits(value)) == value,
    decreases value,
{
    let digits = decimal_digits(value);
    if value < 10 {
        assert(decimal_value(digits.drop_last()) == 0);
    } else {
        lemma_decimal_round_trip(value / 10);
        let init = decimal_digits(value / 10);
        assert(digits.drop_last() =~= init);
    }
}

/// Reading back the decimal form of an interval gives the interval.
pub proof fn lemma_interval_round_trip(value: u16)
    ensures
        parsed_u16(decimal_digits(value as nat)) == Some(value),
        interval_of(decimal_digits(value as nat)) == value,
        !decimal_digits(value as nat).contains(','),
{
    lemma_decimal_round_trip(value as nat);
}

/// Text without a comma, appended to a text, lengthens its last piece.
proof fn lemma_pieces_append(text: Seq<char>, more: Seq<char>)
    requires
        !more.contains(','),
    ensures
        comma_pieces(text + more) == comma_pieces(text).drop_last().push(
            comma_pieces(text).last() + more,
        ),
        comma_pieces(text).len() > 0,
    decreases more.len(),
{
    if more.len() > 0 {
        let init = more.drop_last();
        assert(!init.contains(','));
        lemma_pieces_append(text, init);
        let whole = text + more;
        assert(whole.drop_last() =~= text + init);
        let pieces = comma_pieces(text);
        assert((pieces.last() + init).push(more.last()) =~= pieces.last() + more);
    }
}

/// The pieces of the stored text of `rr` are the decimal forms of its
/// intervals, one piece for each.
proof fn lemma_pieces_of_rr_text(rr: Seq<u16>)
    requires
        rr.len() > 0,
    ensures
        comma_pieces(rr_text(rr)).len() == rr.len(),
        forall|i: int|
            0 <= i < rr.len() ==> #[trigger] comma_pieces(rr_text(rr))[i] == decimal_digits(
                rr[i] as nat,
            ),
    decreases rr.len(),
{
    let last = decimal_digits(rr.last() as nat);
    lemma_interval_round_trip(rr.last());
    if rr.len() == 1 {
        lemma_pieces_append(Seq::empty(), last);
    } else {
        let init = rr.drop_last();
        lemma_pieces_of_rr_text(init);
        let head = rr_text(init) + seq![','];
        assert(head.drop_last() =~= rr_text(init));
        lemma_pieces_append(head, last);
    }
}

/// The stored text of one interval or more is not empty.
proof fn lemma_rr_text_not_empty(rr: Seq<u16>)
    requires
        rr.len() > 0,
    ensures
        rr_text(rr).len() > 0,
{
    lemma_decimal_round_trip(rr.last() as nat);
}

/// Storing RR intervals as text and reading them back gives the intervals
/// stored, however many there are.
pub proof fn lemma_rr_text_round_trip(rr: Seq<u16>)
    ensures
        stored_rr(rr_text(rr)) == rr,
{
    if rr.len() > 0 {
        lemma_rr_text_not_empty(rr);
        lemma_pieces_of_rr_text(rr);
        assert forall|i: int| 0 <= i < rr.len() implies stored_rr(rr_text(rr))[i] == rr[i] by {
            lemma_interval_round_trip(rr[i]);
        }
    }
}

/// A record that is stored and then labelled reads back as it was
/// decoded: the same time, heart rate and RR intervals, none included.
pub proof fn lemma_stored_record_reads_back(record: RecordView, label: i64)
    ensures
        parsed_reading(
            ReadingView {
                time: record.timestamp as i64,
                bpm: record.heart_rate_bpm as i16,
                rr_intervals: rr_text(record.rr_intervals),
                activity: Some(label),
            },
        ) == (ParsedReadingView {
            time: record.timestamp as i64,
            bpm: record.heart_rate_bpm,
            rr: record.rr_intervals,
            activity: label,
        }),
{
    lemma_rr_text_round_trip(record.rr_intervals);
}

} // verus!
