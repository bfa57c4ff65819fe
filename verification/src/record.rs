//! Status records: what one check of one endpoint reports.

use vstd::prelude::*;

verus! {

/// A point on the wall clock: whole seconds since 1970-01-01T00:00:00Z and the
/// nanoseconds into that second.
#[derive(Clone, Copy, Debug, PartialEq, Eq)]
pub struct Timestamp {
    pub secs: i64,
    pub nanos: u32,
}

/// How a check ended. Any HTTP response counts as a success of the check,
/// whatever its status code; only a failure of the transport is a failure.
#[derive(Clone, Debug, PartialEq, Eq)]
pub enum Outcome {
    /// The server answered; the status code is reported as received.
    Success(u16),
    /// No attempt was answered; the text describes the last transport error.
    Failure(String),
}

/// The mathematical value of an [`Outcome`].
pub enum OutcomeView {
    Success(u16),
    Failure(Seq<char>),
}

impl View for Outcome {
    type V = OutcomeView;

    open spec fn view(&self) -> OutcomeView {
        match *self {
            Outcome::Success(code) => OutcomeView::Success(code),
            Outcome::Failure(message) => OutcomeView::Failure(message@),
        }
    }
}

impl Outcome {
    /// Whether the server answered.
    pub fn is_success(&self) -> (answered: bool)
        ensures
            answered == (self@ is Success),
    {
        match self {
            Outcome::Success(_) => true,
            Outcome::Failure(_) => false,
        }
    }

    /// The status code of the answer, if there was one.
    pub fn status_code(&self) -> (code: Option<u16>)
        ensures
            code == match self@ {
                OutcomeView::Success(c) => Some(c),
                OutcomeView::Failure(_) => None::<u16>,
            },
    {
        match self {
            Outcome::Success(c) => Some(*c),
            Outcome::Failure(_) => None,
        }
    }
}

/// The report of one check of one endpoint.
#[derive(Clone, Debug, PartialEq, Eq)]
pub struct StatusRecord {
    /// The endpoint that was checked.
    pub url: String,
    /// How the check ended.
    pub outcome: Outcome,
    /// Nanoseconds from the start of the check to its resolution, all
    /// attempts included.
    pub elapsed_nanos: u128,
    /// The wall-clock time at which the check was started.
    pub observed_at: Timestamp,
}

/// The mathematical value of a [`StatusRecord`].
pub struct StatusRecordView {
    pub url: Seq<char>,
    pub outcome: OutcomeView,
    pub elapsed_nanos: nat,
    pub observed_at: Timestamp,
}

impl View for StatusRecord {
    type V = StatusRecordView;

    open spec fn view(&self) -> StatusRecordView {
        StatusRecordView {
            url: self.url@,
            outcome: self.outcome@,
            elapsed_nanos: self.elapsed_nanos as nat,
            observed_at: self.observed_at,
        }
    }
}

/// A status record as a sink writes it: every field a plain value, the
/// outcome as a `Result`, the elapsed time as whole seconds and the
/// nanoseconds beyond them.
#[derive(Debug, PartialEq, Eq)]
pub struct FlatRecord {
    pub url: String,
    pub status: Result<u16, String>,
    pub elapsed_secs: u64,
    pub elapsed_subsec_nanos: u32,
    pub observed_at: Timestamp,
}

/// The mathematical value of a [`FlatRecord`].
pub struct FlatRecordView {
    pub url: Seq<char>,
    pub status: Result<u16, Seq<char>>,
    pub elapsed_secs: u64,
    pub elapsed_subsec_nanos: u32,
    pub observed_at: Timestamp,
}

impl View for FlatRecord {
    type V = FlatRecordView;

    open spec fn view(&self) -> FlatRecordView {
        FlatRecordView {
            url: self.url@,
            status: match self.status {
                Ok(code) => Ok(code),
                Err(message) => Err(message@),
            },
            elapsed_secs: self.elapsed_secs,
            elapsed_subsec_nanos: self.elapsed_subsec_nanos,
            observed_at: self.observed_at,
        }
    }
}

/// The longest elapsed time that a flat record can hold, in nanoseconds.
pub open spec fn longest_flat_nanos() -> nat {
    (u64::MAX as nat) * 1_000_000_000 + 999_999_999
}

/// The flat form of `record`. An elapsed time beyond the longest that the
/// flat form can hold is written as the longest.
pub open spec fn flattened(record: StatusRecordView) -> FlatRecordView {
    let elapsed = if record.elapsed_nanos <= longest_flat_nanos() {
        record.elapsed_nanos
    } else {
        longest_flat_nanos()
    };
    FlatRecordView {
        url: record.url,
        status: match record.outcome {
            OutcomeView::Success(code) => Ok(code),
            OutcomeView::Failure(message) => Err(message),
        },
        elapsed_secs: (elapsed / 1_000_000_000) as u64,
        elapsed_subsec_nanos: (elapsed % 1_000_000_000) as u32,
        observed_at: record.observed_at,
    }
}

/// The record that `flat` is the flat form of.
pub open spec fn unflattened(flat: FlatRecordView) -> StatusRecordView {
    StatusRecordView {
        url: flat.url,
        outcome: match flat.status {
            Ok(code) => OutcomeView::Success(code),
            Err(message) => OutcomeView::Failure(message),
        },
        elapsed_nanos: (flat.elapsed_secs as nat) * 1_000_000_000
            + flat.elapsed_subsec_nanos as nat,
        observed_at: flat.observed_at,
    }
}

impl StatusRecord {
    /// The record in the form in which a sink writes it.
    pub fn into_flat(self) -> (flat: FlatRecord)
        ensures
            flat@ == flattened(self@),
    {
        let longest: u128 = (u64::MAX as u128) * 1_000_000_000 + 999_999_999;
        let elapsed: u128 = if self.elapsed_nanos <= longest {
            self.elapsed_nanos
        } else {
            longest
        };
        let secs: u128 = elapsed / 1_000_000_000;
        let subsec: u128 = elapsed % 1_000_000_000;
        FlatRecord {
            url: self.url,
            status: match self.outcome {
                Outcome::Success(code) => Ok(code),
                Outcome::Failure(message) => Err(message),
            },
            elapsed_secs: secs as u64,
            elapsed_subsec_nanos: subsec as u32,
            observed_at: self.observed_at,
        }
    }

    /// The record that a sink has written as `flat`.
    pub fn from_flat(flat: FlatRecord) -> (record: StatusRecord)
        ensures
            record@ == unflattened(flat@),
    {
        let secs: u128 = flat.elapsed_secs as u128;
        let subsec: u128 = flat.elapsed_subsec_nanos as u128;
        StatusRecord {
            url: flat.url,
            outcome: match flat.status {
                Ok(code) => Outcome::Success(code),
                Err(message) => Outcome::Failure(message),
            },
            elapsed_nanos: secs * 1_000_000_000 + subsec,
            observed_at: flat.observed_at,
        }
    }
}

/// A record comes back from its flat form as it went in: endpoint, outcome,
/// elapsed time and start time are preserved, for every record whose elapsed
/// time the flat form can hold.
pub proof fn flat_form_round_trips(record: StatusRecordView)
    requires
        record.elapsed_nanos <= longest_flat_nanos(),
    ensures
        unflattened(flattened(record)) == record,
{
    let elapsed = record.elapsed_nanos as int;
    assert(elapsed == (elapsed / 1_000_000_000) * 1_000_000_000 + elapsed % 1_000_000_000);
    assert(0 <= elapsed / 1_000_000_000 <= u64::MAX);
    assert(0 <= elapsed % 1_000_000_000 < 1_000_000_000);
}

} // verus!
