//! Candle intervals and the reading of Binance kline pages.

use vstd::prelude::*;
use vstd::string::StringExecFns;

use crate::dates::{all_digits, decimal_value, digit_value};
use crate::text::text_eq;

verus! {

/// A candle interval that Binance serves.
#[derive(Clone, Copy, Debug, PartialEq, Eq, Structural)]
pub enum Interval {
    M1,
    M5,
    M15,
    H1,
    H4,
    D1,
}

/// The interval that a user-given name stands for.  Each interval has its
/// Binance code and a few aliases; any other name means one minute.
pub open spec fn spec_interval(s: Seq<char>) -> Interval {
    if s == "1m"@ || s == "m1"@ || s == "1"@ {
        Interval::M1
    } else if s == "5m"@ || s == "m5"@ || s == "5"@ {
        Interval::M5
    } else if s == "15m"@ || s == "m15"@ || s == "15"@ {
        Interval::M15
    } else if s == "1h"@ || s == "h1"@ || s == "60"@ {
        Interval::H1
    } else if s == "4h"@ || s == "h4"@ || s == "240"@ {
        Interval::H4
    } else if s == "1d"@ || s == "d1"@ {
        Interval::D1
    } else {
        Interval::M1
    }
}

impl Interval {
    /// The Binance code of the interval.
    pub open spec fn spec_code(self) -> Seq<char> {
        match self {
            Interval::M1 => "1m"@,
            Interval::M5 => "5m"@,
            Interval::M15 => "15m"@,
            Interval::H1 => "1h"@,
            Interval::H4 => "4h"@,
            Interval::D1 => "1d"@,
        }
    }

    /// The length of one candle in milliseconds.
    pub open spec fn spec_millis(self) -> i64 {
        match self {
            Interval::M1 => 60_000,
            Interval::M5 => 300_000,
            Interval::M15 => 900_000,
            Interval::H1 => 3_600_000,
            Interval::H4 => 14_400_000,
            Interval::D1 => 86_400_000,
        }
    }

    /// Reads an interval name; see [`spec_interval`].
    pub fn parse(s: &str) -> (i: Interval)
        ensures
            i == spec_interval(s@),
    {
        if text_eq(s, "1m") || text_eq(s, "m1") || text_eq(s, "1") {
            Interval::M1
        } else if text_eq(s, "5m") || text_eq(s, "m5") || text_eq(s, "5") {
            Interval::M5
        } else if text_eq(s, "15m") || text_eq(s, "m15") || text_eq(s, "15") {
            Interval::M15
        } else if text_eq(s, "1h") || text_eq(s, "h1") || text_eq(s, "60") {
            Interval::H1
        } else if text_eq(s, "4h") || text_eq(s, "h4") || text_eq(s, "240") {
            Interval::H4
        } else if text_eq(s, "1d") || text_eq(s, "d1") {
            Interval::D1
        } else {
            Interval::M1
        }
    }

    pub fn code(&self) -> (s: &'static str)
        ensures
            s@ == self.spec_code(),
    {
        match self {
            Interval::M1 => "1m",
            Interval::M5 => "5m",
            Interval::M15 => "15m",
            Interval::H1 => "1h",
            Interval::H4 => "4h",
            Interval::D1 => "1d",
        }
    }

    pub fn millis(&self) -> (ms: i64)
        ensures
            ms == self.spec_millis(),
            ms > 0,
    {
        match self {
            Interval::M1 => 60_000,
            Interval::M5 => 300_000,
            Interval::M15 => 900_000,
            Interval::H1 => 3_600_000,
            Interval::H4 => 14_400_000,
            Interval::D1 => 86_400_000,
        }
    }
}

/// Reading an interval's own code gives the interval back, so normalising a
/// name twice changes nothing.
pub proof fn law_interval_code_round_trip(i: Interval)
    ensures
        spec_interval(i.spec_code()) == i,
{
    reveal_strlit("1m");
    reveal_strlit("m1");
    reveal_strlit("1");
    reveal_strlit("5m");
    reveal_strlit("m5");
    reveal_strlit("5");
    reveal_strlit("15m");
    reveal_strlit("m15");
    reveal_strlit("15");
    reveal_strlit("1h");
    reveal_strlit("h1");
    reveal_strlit("60");
    reveal_strlit("4h");
    reveal_strlit("h4");
    reveal_strlit("240");
    reveal_strlit("1d");
    reveal_strlit("d1");
    assert("1m"@ =~= seq!['1', 'm']);
    assert("m1"@ =~= seq!['m', '1']);
    assert("1"@ =~= seq!['1']);
    assert("5m"@ =~= seq!['5', 'm']);
    assert("m5"@ =~= seq!['m', '5']);
    assert("5"@ =~= seq!['5']);
    assert("15m"@ =~= seq!['1', '5', 'm']);
    assert("m15"@ =~= seq!['m', '1', '5']);
    assert("15"@ =~= seq!['1', '5']);
    assert("1h"@ =~= seq!['1', 'h']);
    assert("h1"@ =~= seq!['h', '1']);
    assert("60"@ =~= seq!['6', '0']);
    assert("4h"@ =~= seq!['4', 'h']);
    assert("h4"@ =~= seq!['h', '4']);
    assert("240"@ =~= seq!['2', '4', '0']);
    assert("1d"@ =~= seq!['1', 'd']);
    assert("d1"@ =~= seq!['d', '1']);
}

/// Milliseconds in one unit of an interval code: a minute, an hour or a day.
pub open spec fn unit_millis(unit: char) -> nat {
    if unit == 'm' {
        60 * 1000
    } else if unit == 'h' {
        60 * 60 * 1000
    } else if unit == 'd' {
        24 * 60 * 60 * 1000
    } else {
        0
    }
}

proof fn lemma_one_digit(c: char)
    ensures
        decimal_value(seq![c]) == digit_value(c),
{
    assert(seq![c].drop_last() =~= Seq::<char>::empty());
    assert(decimal_value(Seq::<char>::empty()) == 0);
}

/// An interval lasts what its code says: the code is a count of units
/// followed by the unit, and the interval's length in milliseconds is the
/// count times the unit's length (so "15m" lasts 15 minutes).
pub proof fn law_interval_length_matches_code(i: Interval)
    ensures
        i.spec_code().len() >= 2,
        all_digits(i.spec_code().drop_last()),
        i.spec_millis() == decimal_value(i.spec_code().drop_last()) * unit_millis(i.spec_code().last()),
        i.spec_millis() > 0,
{
    match i {
        Interval::M1 => {
            reveal_strlit("1m");
            assert("1m"@ =~= seq!['1', 'm']);
            assert(seq!['1', 'm'].drop_last() =~= seq!['1']);
            lemma_one_digit('1');
            assert(digit_value('1') == 1);
        },
        Interval::M5 => {
            reveal_strlit("5m");
            assert("5m"@ =~= seq!['5', 'm']);
            assert(seq!['5', 'm'].drop_last() =~= seq!['5']);
            lemma_one_digit('5');
            assert(digit_value('5') == 5);
        },
        Interval::M15 => {
            reveal_strlit("15m");
            assert("15m"@ =~= seq!['1', '5', 'm']);
            assert(seq!['1', '5', 'm'].drop_last() =~= seq!['1', '5']);
            assert(seq!['1', '5'].drop_last() =~= seq!['1']);
            lemma_one_digit('1');
            assert(digit_value('1') == 1);
            assert(digit_value('5') == 5);
            assert(decimal_value(seq!['1', '5']) == decimal_value(seq!['1']) * 10 + digit_value('5'));
        },
        Interval::H1 => {
            reveal_strlit("1h");
            assert("1h"@ =~= seq!['1', 'h']);
            assert(seq!['1', 'h'].drop_last() =~= seq!['1']);
            lemma_one_digit('1');
            assert(digit_value('1') == 1);
        },
        Interval::H4 => {
            reveal_strlit("4h");
            assert("4h"@ =~= seq!['4', 'h']);
            assert(seq!['4', 'h'].drop_last() =~= seq!['4']);
            lemma_one_digit('4');
            assert(digit_value('4') == 4);
        },
        Interval::D1 => {
            reveal_strlit("1d");
            assert("1d"@ =~= seq!['1', 'd']);
            assert(seq!['1', 'd'].drop_last() =~= seq!['1']);
            lemma_one_digit('1');
            assert(digit_value('1') == 1);
        },
    }
}

/// One entry of a kline row as the JSON reply holds it: an integer that
/// fits in `i64`, a string, or anything else.
#[derive(Debug)]
pub enum JsonField {
    Int(i64),
    Text(String),
    Other,
}

/// A [`JsonField`] with its text as a sequence of characters.
pub enum JsonFieldView {
    Int(i64),
    Text(Seq<char>),
    Other,
}

impl View for JsonField {
    type V = JsonFieldView;

    open spec fn view(&self) -> JsonFieldView {
        match self {
            JsonField::Int(v) => JsonFieldView::Int(*v),
            JsonField::Text(s) => JsonFieldView::Text(s@),
            JsonField::Other => JsonFieldView::Other,
        }
    }
}

pub open spec fn fields_view(fields: Seq<JsonField>) -> Seq<JsonFieldView> {
    fields.map_values(|f: JsonField| f@)
}

/// A page row as its fields' views; `None` for an entry that is not an array.
pub open spec fn row_view(row: Option<Vec<JsonField>>) -> Option<Seq<JsonFieldView>> {
    match row {
        Some(v) => Some(fields_view(v@)),
        None => None,
    }
}

/// A page as the views of its rows.
pub open spec fn page_view(page: Seq<Option<Vec<JsonField>>>) -> Seq<Option<Seq<JsonFieldView>>> {
    page.map_values(|row: Option<Vec<JsonField>>| row_view(row))
}

/// What serde_json reads from a kline reply body: `None` when the body is
/// not JSON text or not an array; otherwise, for each entry, its fields
/// when it is an array (integers that fit in `i64`, strings, anything
/// else), `None` when it is not.
pub uninterp spec fn spec_kline_reply(body: Seq<char>) -> Option<Seq<Option<Seq<JsonFieldView>>>>;

/// Calls `serde_json::from_str::<serde_json::Value>(body)` and converts an
/// array reply one for one: each entry with `Value::as_array`, each field
/// with `Value::as_i64` and `Value::as_str`.  Claimed: the result depends
/// on the text of `body` alone, as named by [`spec_kline_reply`]; which
/// texts serde_json accepts is not stated.
#[verifier::external_body]
fn kline_reply(body: &str) -> (r: Option<Vec<Option<Vec<JsonField>>>>)
    ensures
        r is None <==> spec_kline_reply(body@) is None,
        r matches Some(rows) ==> page_view(rows@) == spec_kline_reply(body@)->0,
{
    match serde_json::from_str::<serde_json::Value>(body) {
        Ok(serde_json::Value::Array(rows)) => Some(rows.iter().map(|row| row.as_array().map(|items| {
            items.iter().map(|x| match (x.as_i64(), x.as_str()) {
                (Some(v), _) => JsonField::Int(v),
                (None, Some(t)) => JsonField::Text(t.to_string()),
                _ => JsonField::Other,
            }).collect()
        })).collect()),
        _ => None,
    }
}

/// Every kline of a page starts early enough that the next start, one
/// interval later, is still an `i64`.
pub open spec fn page_fits(page: Seq<Option<Seq<JsonFieldView>>>, interval: Interval) -> bool {
    forall|x: int|
        0 <= x < spec_page(page).len() ==> #[trigger] spec_page(page)[x].timestamp + interval.spec_millis()
            <= i64::MAX
}

/// The text of a kline value field: a string as it stands, anything else
/// read as "0".
pub open spec fn field_text(f: JsonFieldView) -> Seq<char> {
    match f {
        JsonFieldView::Text(s) => s,
        _ => "0"@,
    }
}

/// The open time of a kline row: an integer as it stands, anything else
/// read as 0.
pub open spec fn field_int(f: JsonFieldView) -> i64 {
    match f {
        JsonFieldView::Int(v) => v,
        _ => 0,
    }
}

/// A kline as read from a reply: its open time and the text of its open,
/// high, low, close and volume.
pub struct RawKline {
    pub timestamp: i64,
    pub open: String,
    pub high: String,
    pub low: String,
    pub close: String,
    pub volume: String,
}

pub struct KlineText {
    pub timestamp: i64,
    pub open: Seq<char>,
    pub high: Seq<char>,
    pub low: Seq<char>,
    pub close: Seq<char>,
    pub volume: Seq<char>,
}

impl View for RawKline {
    type V = KlineText;

    open spec fn view(&self) -> KlineText {
        KlineText {
            timestamp: self.timestamp,
            open: self.open@,
            high: self.high@,
            low: self.low@,
            close: self.close@,
            volume: self.volume@,
        }
    }
}

/// The kline that a row describes: rows with at least six entries are
/// read, shorter ones are skipped.
pub open spec fn spec_row(row: Seq<JsonFieldView>) -> Option<KlineText> {
    if row.len() >= 6 {
        Some(
            KlineText {
                timestamp: field_int(row[0]),
                open: field_text(row[1]),
                high: field_text(row[2]),
                low: field_text(row[3]),
                close: field_text(row[4]),
                volume: field_text(row[5]),
            },
        )
    } else {
        None
    }
}

/// The klines of a page, in order: each entry that is an array and a
/// readable row gives one kline.
pub open spec fn spec_page(page: Seq<Option<Seq<JsonFieldView>>>) -> Seq<KlineText>
    decreases page.len(),
{
    if page.len() == 0 {
        Seq::empty()
    } else {
        let before = spec_page(page.drop_last());
        match page.last() {
            Some(row) => match spec_row(row) {
                Some(k) => before.push(k),
                None => before,
            },
            None => before,
        }
    }
}

fn field_string(f: &JsonField) -> (s: String)
    ensures
        s@ == field_text(f@),
{
    match f {
        JsonField::Text(s) => s.clone(),
        _ => String::from_str("0"),
    }
}

/// Reads one row; see [`spec_row`].
pub fn read_row(row: &Vec<JsonField>) -> (k: Option<RawKline>)
    ensures
        match k {
            Some(k) => spec_row(fields_view(row@)) == Some(k@),
            None => spec_row(fields_view(row@)) is None,
        },
{
    if row.len() < 6 {
        return None;
    }
    let timestamp = match &row[0] {
        JsonField::Int(v) => *v,
        _ => 0,
    };
    Some(
        RawKline {
            timestamp,
            open: field_string(&row[1]),
            high: field_string(&row[2]),
            low: field_string(&row[3]),
            close: field_string(&row[4]),
            volume: field_string(&row[5]),
        },
    )
}

/// A reply that is not an array of rows.
#[derive(Clone, Copy, Debug, PartialEq, Eq, Structural)]
pub enum FetchError {
    InvalidResponse,
}

/// The state of a paged kline download: where the next page starts, where
/// the download ends, how many klines it may stop after, and how many it has.
pub struct KlineFetch {
    pub next_start: i64,
    pub end_time: i64,
    pub limit: usize,
    pub fetched: usize,
    pub interval: Interval,
}

pub open spec fn views(ks: Seq<RawKline>) -> Seq<KlineText> {
    ks.map_values(|k: RawKline| k@)
}

impl KlineFetch {
    pub fn new(start_time: i64, end_time: i64, limit: usize, interval: Interval) -> (f: KlineFetch)
        ensures
            f.next_start == start_time,
            f.end_time == end_time,
            f.limit == limit,
            f.fetched == 0,
            f.interval == interval,
    {
        KlineFetch { next_start: start_time, end_time, limit, fetched: 0, interval }
    }

    /// Another page is asked for while the next start lies before the end
    /// and fewer than `limit` klines have come.
    pub fn wants_more(&self) -> (b: bool)
        ensures
            b == (self.next_start < self.end_time && self.fetched < self.limit),
    {
        self.next_start < self.end_time && self.fetched < self.limit
    }

    /// Takes in one page.  A reply that is not an array is an error and
    /// changes nothing.  Otherwise its klines (see [`spec_page`]) are
    /// returned and counted, and the next page starts one interval after
    /// the last of them (or where it did, if there is none).
    pub fn absorb(&mut self, page: &Option<Vec<Option<Vec<JsonField>>>>) -> (r: Result<Vec<RawKline>, FetchError>)
        requires
            page matches Some(rows) ==> old(self).fetched + rows@.len() <= usize::MAX,
            page matches Some(rows) ==> page_fits(page_view(rows@), old(self).interval),
        ensures
            final(self).end_time == old(self).end_time,
            final(self).limit == old(self).limit,
            final(self).interval == old(self).interval,
            match page {
                None => r == Err::<Vec<RawKline>, FetchError>(FetchError::InvalidResponse)
                    && final(self).next_start == old(self).next_start
                    && final(self).fetched == old(self).fetched,
                Some(rows) => r matches Ok(ks) && views(ks@) == spec_page(page_view(rows@))
                    && final(self).fetched == old(self).fetched + ks@.len()
                    && final(self).next_start == if ks@.len() == 0 {
                        old(self).next_start as int
                    } else {
                        ks@.last().timestamp + old(self).interval.spec_millis()
                    },
            },
    {
        match page {
            None => Err(FetchError::InvalidResponse),
            Some(rows) => {
                let ms = self.interval.millis();
                let ghost pv = page_view(rows@);
                let ghost start0 = self.next_start;
                let ghost fetched0 = self.fetched;
                let mut out: Vec<RawKline> = Vec::new();
                let mut x: usize = 0;
                while x < rows.len()
                    invariant
                        x <= rows@.len(),
                        self.end_time == old(self).end_time,
                        self.limit == old(self).limit,
                        self.interval == old(self).interval,
                        ms == self.interval.spec_millis(),
                        ms > 0,
                        fetched0 + rows@.len() <= usize::MAX,
                        pv == page_view(rows@),
                        forall|y: int|
                            0 <= y < spec_page(pv).len() ==> #[trigger] spec_page(pv)[y].timestamp
                                + ms <= i64::MAX,
                        views(out@) == spec_page(pv.take(x as int)),
                        out@.len() <= x,
                        self.fetched == fetched0 + out@.len(),
                        self.next_start == if out@.len() == 0 {
                            start0 as int
                        } else {
                            out@.last().timestamp + ms
                        },
                    decreases rows@.len() - x,
                {
                    proof {
                        lemma_page_prefix(pv, x as int);
                        assert(pv.take(x + 1).drop_last() =~= pv.take(x as int));
                        assert(pv[x as int] == row_view(rows@[x as int]));
                    }
                    if let Some(row) = &rows[x] {
                        if let Some(k) = read_row(row) {
                            proof {
                                assert(views(out@.push(k)) =~= views(out@).push(k@));
                                let n = spec_page(pv.take(x as int)).len();
                                assert(pv.take(x + 1).last() == pv[x as int]);
                                assert(spec_page(pv.take(x + 1)) == spec_page(pv.take(x as int)).push(k@));
                                lemma_page_is_prefix(pv, x + 1);
                                assert(spec_page(pv.take(x + 1))[n as int] == k@);
                                assert(spec_page(pv)[n as int] == k@);
                                assert(spec_page(pv)[n as int].timestamp + ms <= i64::MAX);
                            }
                            self.next_start = k.timestamp + ms;
                            self.fetched = self.fetched + 1;
                            out.push(k);
                        }
                    }
                    x = x + 1;
                }
                assert(pv.take(pv.len() as int) =~= pv);
                Ok(out)
            },
        }
    }
}

impl KlineFetch {
    /// Whether a page can be taken in: its klines' next starts stay within
    /// `i64` and the count of klines within `usize`.
    fn page_can_be_taken(&self, rows: &Vec<Option<Vec<JsonField>>>) -> (b: bool)
        ensures
            b == (page_fits(page_view(rows@), self.interval) && self.fetched + rows@.len() <= usize::MAX),
    {
        if self.fetched > usize::MAX - rows.len() {
            return false;
        }
        let ms = self.interval.millis();
        let ghost pv = page_view(rows@);
        let mut x: usize = 0;
        while x < rows.len()
            invariant
                x <= rows@.len(),
                pv == page_view(rows@),
                ms == self.interval.spec_millis(),
                ms > 0,
                forall|y: int|
                    0 <= y < spec_page(pv.take(x as int)).len() ==> #[trigger] spec_page(pv.take(x as int))[y].timestamp
                        + ms <= i64::MAX,
            decreases rows@.len() - x,
        {
            proof {
                assert(pv.take(x + 1).drop_last() =~= pv.take(x as int));
                assert(pv[x as int] == row_view(rows@[x as int]));
                assert(pv.take(x + 1).last() == pv[x as int]);
            }
            if let Some(row) = &rows[x] {
                if let Some(k) = read_row(row) {
                    let n = x;
                    proof {
                        assert(spec_page(pv.take(x + 1)) == spec_page(pv.take(x as int)).push(k@));
                    }
                    if k.timestamp > i64::MAX - ms {
                        proof {
                            let m = spec_page(pv.take(n as int)).len();
                            lemma_page_is_prefix(pv, n + 1);
                            assert(spec_page(pv.take(n + 1))[m as int] == k@);
                            assert(spec_page(pv)[m as int].timestamp + ms > i64::MAX);
                        }
                        return false;
                    }
                    proof {
                        let before = spec_page(pv.take(x as int));
                        let after = spec_page(pv.take(x + 1));
                        assert forall|y: int| 0 <= y < after.len() implies #[trigger] after[y].timestamp + ms
                            <= i64::MAX by {
                            if y < before.len() {
                                assert(after[y] == before[y]);
                            }
                        }
                    }
                } else {
                    assert(spec_page(pv.take(x + 1)) == spec_page(pv.take(x as int)));
                }
            } else {
                assert(spec_page(pv.take(x + 1)) == spec_page(pv.take(x as int)));
            }
            x = x + 1;
        }
        assert(pv.take(pv.len() as int) =~= pv);
        true
    }

    /// Takes in the body of a kline reply, as serde_json reads it (see
    /// [`spec_kline_reply`]): a body that is not an array is an error and
    /// changes nothing; otherwise its page is absorbed as [`KlineFetch::absorb`]
    /// does.  When the page cannot be taken in (a next start would leave
    /// `i64`, or the count `usize`), nothing changes and `None` comes back.
    pub fn absorb_reply(&mut self, body: &str) -> (r: Option<Result<Vec<RawKline>, FetchError>>)
        ensures
            final(self).end_time == old(self).end_time,
            final(self).limit == old(self).limit,
            final(self).interval == old(self).interval,
            match spec_kline_reply(body@) {
                None => r == Some(Err::<Vec<RawKline>, FetchError>(FetchError::InvalidResponse))
                    && final(self).next_start == old(self).next_start
                    && final(self).fetched == old(self).fetched,
                Some(pv) => if page_fits(pv, old(self).interval) && old(self).fetched + pv.len() <= usize::MAX {
                    r matches Some(Ok(ks)) && views(ks@) == spec_page(pv)
                        && final(self).fetched == old(self).fetched + ks@.len()
                        && final(self).next_start == if ks@.len() == 0 {
                            old(self).next_start as int
                        } else {
                            ks@.last().timestamp + old(self).interval.spec_millis()
                        }
                } else {
                    r is None && final(self).next_start == old(self).next_start
                        && final(self).fetched == old(self).fetched
                },
            },
    {
        let page = kline_reply(body);
        match &page {
            None => Some(Err(FetchError::InvalidResponse)),
            Some(rows) => {
                if !self.page_can_be_taken(rows) {
                    return None;
                }
                Some(self.absorb(&page))
            },
        }
    }
}

/// A page's klines are no more than its rows.
proof fn lemma_page_len(page: Seq<Option<Seq<JsonFieldView>>>)
    ensures
        spec_page(page).len() <= page.len(),
    decreases page.len(),
{
    if page.len() > 0 {
        lemma_page_len(page.drop_last());
    }
}

proof fn lemma_page_prefix(page: Seq<Option<Seq<JsonFieldView>>>, x: int)
    requires
        0 <= x <= page.len(),
    ensures
        spec_page(page.take(x)).len() <= x,
{
    lemma_page_len(page.take(x));
}

/// The klines of a prefix of a page are a prefix of the page's klines.
proof fn lemma_page_is_prefix(page: Seq<Option<Seq<JsonFieldView>>>, x: int)
    requires
        0 <= x <= page.len(),
    ensures
        spec_page(page.take(x)).len() <= spec_page(page).len(),
        forall|y: int|
            0 <= y < spec_page(page.take(x)).len() ==> #[trigger] spec_page(page.take(x))[y]
                == spec_page(page)[y],
    decreases page.len() - x,
{
    if x < page.len() {
        lemma_page_is_prefix(page, x + 1);
        assert(page.take(x + 1).drop_last() =~= page.take(x));
        let before = spec_page(page.take(x));
        let after = spec_page(page.take(x + 1));
        assert(before.len() <= after.len());
        assert forall|y: int| 0 <= y < before.len() implies #[trigger] before[y] == spec_page(page)[y] by {
            assert(after[y] == spec_page(page)[y]);
        }
    } else {
        assert(page.take(x) =~= page);
    }
}

} // verus!
