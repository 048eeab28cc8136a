//! The incremental download window tracker. It records only that a run
//! completed on a given date, as an eight-digit `YYYYMMDD` token, and hands
//! that token to the external download step as a lower bound for new
//! content. The token lives in a single state file; this module models the
//! file's content as an optional string, and the surrounding program reads
//! and writes the file itself.

use vstd::prelude::*;

verus! {

use chrono::Datelike;
use crate::text::{spec_decimal, spec_zero_pad, padded_decimal};
use vstd::string::StringExecFns;

/// The `YYYYMMDD` form of a date: the year to four digits, month and day to
/// two, each zero-padded.
pub open spec fn spec_yyyymmdd(y: nat, m: nat, d: nat) -> Seq<char> {
    spec_zero_pad(spec_decimal(y), 4) + spec_zero_pad(spec_decimal(m), 2) + spec_zero_pad(
        spec_decimal(d),
        2,
    )
}

/// Formats a date as its eight-digit `YYYYMMDD` token.
pub fn yyyymmdd(y: u64, m: u64, d: u64) -> (r: String)
    requires
        y <= 9999,
        1 <= m <= 12,
        1 <= d <= 31,
    ensures
        r@ == spec_yyyymmdd(y as nat, m as nat, d as nat),
{
    let mut s = padded_decimal(y, 4);
    let ms = padded_decimal(m, 2);
    let ds = padded_decimal(d, 2);
    s.append(ms.as_str());
    s.append(ds.as_str());
    s
}

/// The recorded date token is always exactly eight characters long.
pub proof fn lemma_yyyymmdd_len(y: nat, m: nat, d: nat)
    requires
        y <= 9999,
        1 <= m <= 12,
        1 <= d <= 31,
    ensures
        spec_yyyymmdd(y, m, d).len() == 8,
{
    crate::text::lemma_decimal_len(y);
    crate::text::lemma_decimal_len(m);
    crate::text::lemma_decimal_len(d);
    crate::text::lemma_zero_pad_len(spec_decimal(y), 4);
    crate::text::lemma_zero_pad_len(spec_decimal(m), 2);
    crate::text::lemma_zero_pad_len(spec_decimal(d), 2);
}

/// Relies on `chrono::Utc::now` and the `chrono::Datelike` accessors `year`,
/// `month` and `day`: the current UTC date, with `month` in `1..=12` and
/// `day` in `1..=31` as their documentation states. The year carries no
/// bound of its own.
#[verifier::external_body]
fn utc_today() -> (r: (i64, u64, u64))
    ensures
        1 <= r.1 <= 12,
        1 <= r.2 <= 31,
{
    let now = chrono::Utc::now();
    (now.year() as i64, now.month() as u64, now.day() as u64)
}

/// The persisted tracker state: the content of the state file, or nothing
/// when the file is absent or unreadable.
#[derive(Clone, Debug)]
pub struct DateStore {
    pub token: Option<String>,
}

impl View for DateStore {
    type V = Option<Seq<char>>;

    open spec fn view(&self) -> Option<Seq<char>> {
        self.token.deep_view()
    }
}

/// What recording a run date leaves in the store, whatever it held before.
pub open spec fn spec_recorded(prior: Option<Seq<char>>, y: nat, m: nat, d: nat) -> Option<
    Seq<char>,
> {
    Some(spec_yyyymmdd(y, m, d))
}

/// What reading the store yields: its token, unset included.
pub open spec fn spec_last_date(token: Option<Seq<char>>) -> Option<Seq<char>> {
    token
}

impl DateStore {
    /// The state of a missing or unreadable state file: no date recorded.
    pub fn unset() -> (r: DateStore)
        ensures
            r@ is None,
    {
        DateStore { token: None }
    }

    /// A store holding a previously persisted token.
    pub fn from_token(token: String) -> (r: DateStore)
        ensures
            r@ == Some(token@),
    {
        DateStore { token: Some(token) }
    }

    /// Reads the recorded date token. Returns an explicit "unset" — not an
    /// error — when none is recorded.
    pub fn get_last_download_date(&self) -> (r: Option<String>)
        ensures
            r.deep_view() == spec_last_date(self@),
    {
        match &self.token {
            Some(t) => Some(t.clone()),
            None => None,
        }
    }

    /// Records that a run completed on the given date: the store then holds
    /// exactly that date's eight-digit token, whatever it held before.
    pub fn record_run_date(&mut self, y: u64, m: u64, d: u64)
        requires
            y <= 9999,
            1 <= m <= 12,
            1 <= d <= 31,
        ensures
            final(self)@ == spec_recorded(old(self)@, y as nat, m as nat, d as nat),
    {
        self.token = Some(yyyymmdd(y, m, d));
    }

    /// Records the current UTC date. Succeeds and records the clock's date
    /// whenever the clock's year fits the four-digit token form; otherwise
    /// reports failure and leaves the store unchanged.
    pub fn set_last_download_date(&mut self) -> (r: bool)
        ensures
            r ==> exists|y: nat, m: nat, d: nat|
                y <= 9999 && 1 <= m <= 12 && 1 <= d <= 31 && final(self)@ == spec_recorded(
                    old(self)@,
                    y,
                    m,
                    d,
                ),
            !r ==> final(self)@ == old(self)@,
    {
        let (y, m, d) = utc_today();
        if 0 <= y && y <= 9999 {
            let yu = y as u64;
            self.record_run_date(yu, m, d);
            proof {
                assert(yu as nat <= 9999 && 1 <= m as nat <= 12 && 1 <= d as nat <= 31
                    && self@ == spec_recorded(old(self)@, yu as nat, m as nat, d as nat));
            }
            true
        } else {
            false
        }
    }

    /// The lower bound the external download step should use: the recorded
    /// date, and only when an incremental download was asked for.
    pub fn download_window_lower_bound(&self, incremental: bool) -> (r: Option<String>)
        ensures
            r is Some <==> (incremental && self@ is Some),
            r is Some ==> r->0@ == self@->0,
    {
        if incremental {
            self.get_last_download_date()
        } else {
            None
        }
    }
}

/// Recording a run date and then reading the tracker yields exactly that
/// date's `YYYYMMDD` token, whatever the store held before; the token is
/// eight characters long and made of digits alone.
pub proof fn lemma_record_then_read(prior: Option<Seq<char>>, y: nat, m: nat, d: nat)
    requires
        y <= 9999,
        1 <= m <= 12,
        1 <= d <= 31,
    ensures
        spec_last_date(spec_recorded(prior, y, m, d)) == Some(spec_yyyymmdd(y, m, d)),
        spec_last_date(spec_recorded(prior, y, m, d))->0.len() == 8,
        forall|k: int|
            0 <= k < 8 ==> crate::text::spec_is_digit(#[trigger] spec_yyyymmdd(y, m, d)[k]),
{
    lemma_yyyymmdd_len(y, m, d);
    crate::text::lemma_decimal_digits(y);
    crate::text::lemma_decimal_digits(m);
    crate::text::lemma_decimal_digits(d);
    crate::text::lemma_zero_pad_digits(spec_decimal(y), 4);
    crate::text::lemma_zero_pad_digits(spec_decimal(m), 2);
    crate::text::lemma_zero_pad_digits(spec_decimal(d), 2);
}

} // verus!
