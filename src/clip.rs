//! Clip identity and storage: the id of a recording, where it lives on disk,
//! its samples in memory and whether it may still be written.

use chrono::{Datelike, Timelike};
use vstd::prelude::*;
use vstd::string::StringExecFns;
use vstd::string::StrSliceExecFns;
use vstd::slice::slice_subrange;
use crate::text::{
    digit_char, file_name_of, find_last, fixed_digits, join_path, join_spec, last_index_of,
    lemma_fixed_digits_len, lemma_last_index_of_bounds, path_stem, push_fixed_digits, stem_of,
    trim_end, trimmed_len,
};

verus! {

/// The identity of a clip: a file stem, free of `/`, so that it can name a
/// file inside the session directory.
#[derive(Debug)]
pub struct ClipId(String);

impl View for ClipId {
    type V = Seq<char>;

    closed spec fn view(&self) -> Seq<char> {
        self.0@
    }
}

impl PartialEq for ClipId {
    fn eq(&self, o: &ClipId) -> (r: bool) {
        self.0 == o.0
    }
}

impl vstd::std_specs::cmp::PartialEqSpecImpl for ClipId {
    open spec fn obeys_eq_spec() -> bool {
        true
    }

    open spec fn eq_spec(&self, o: &ClipId) -> bool {
        self@ == o@
    }
}

impl Clone for ClipId {
    fn clone(&self) -> (r: ClipId)
        ensures
            r@ == self@,
    {
        ClipId(self.0.clone())
    }
}

/// A clock reading as the system clock gives it.
#[derive(Clone, Copy, Debug)]
pub struct ClockReading {
    pub year: i32,
    pub month: u32,
    pub day: u32,
    pub hour: u32,
    pub minute: u32,
    pub second: u32,
    /// Nanoseconds past the second; 1_000_000_000 and above during a leap second.
    pub nanosecond: u32,
}

/// A calendar date and time of day to the nanosecond, in the range that ids
/// are made from (years 0 to 9999).
#[derive(Clone, Copy, Debug, PartialEq, Eq, Structural)]
pub struct Timestamp {
    pub year: u32,
    pub month: u32,
    pub day: u32,
    pub hour: u32,
    pub minute: u32,
    pub second: u32,
    pub nanosecond: u32,
}

/// Relies on `std::time::SystemTime::now` and `duration_since`: the time
/// since the Unix epoch as whole seconds and the nanoseconds past them (which
/// `Duration::subsec_nanos` documents as below one second); none when the
/// clock reads before the epoch.
#[verifier::external_body]
fn unix_time_now() -> (r: Option<(u64, u32)>)
    ensures
        r matches Some((_, n)) ==> n < 1_000_000_000,
{
    match std::time::SystemTime::now().duration_since(std::time::UNIX_EPOCH) {
        Ok(d) => Some((d.as_secs(), d.subsec_nanos())),
        Err(_) => None,
    }
}

/// Relies on chrono's `DateTime::from_timestamp` (UTC) and the accessors of
/// `Datelike` and `Timelike`, whose documented ranges are stated here; none
/// where chrono cannot represent the time.
#[verifier::external_body]
fn utc_from_timestamp(secs: i64, nanos: u32) -> (r: Option<ClockReading>)
    ensures
        r matches Some(c) ==> {
            &&& 1 <= c.month <= 12
            &&& 1 <= c.day <= 31
            &&& c.hour <= 23
            &&& c.minute <= 59
            &&& c.second <= 59
            &&& c.nanosecond <= 1_999_999_999
        },
{
    match chrono::DateTime::from_timestamp(secs, nanos) {
        Some(t) => Some(ClockReading {
            year: t.year(),
            month: t.month(),
            day: t.day(),
            hour: t.hour(),
            minute: t.minute(),
            second: t.second(),
            nanosecond: t.nanosecond(),
        }),
        None => None,
    }
}

/// `YYYY-MM-DD_hh-mm-ss.nnnnnnnnn`, each field zero-padded to its width.
pub open spec fn stamp_text(t: Timestamp) -> Seq<char> {
    fixed_digits(t.year as nat, 4) + seq!['-'] + fixed_digits(t.month as nat, 2) + seq!['-']
        + fixed_digits(t.day as nat, 2) + seq!['_'] + fixed_digits(t.hour as nat, 2) + seq!['-']
        + fixed_digits(t.minute as nat, 2) + seq!['-'] + fixed_digits(t.second as nat, 2) + seq![
        '.',
    ] + fixed_digits(t.nanosecond as nat, 9)
}

impl Timestamp {
    /// A reading of the clock as a timestamp: a leap second's nanoseconds
    /// carry into the second, as the clock's own formatting shows them. None
    /// for a year outside 0 to 9999.
    pub fn from_clock(r: ClockReading) -> (t: Option<Timestamp>)
        requires
            r.second <= 59,
            r.nanosecond <= 1_999_999_999,
        ensures
            t is Some <==> 0 <= r.year <= 9999,
            t matches Some(t) ==> {
                &&& t.year == r.year
                &&& t.month == r.month
                &&& t.day == r.day
                &&& t.hour == r.hour
                &&& t.minute == r.minute
                &&& t.second == r.second + r.nanosecond / 1_000_000_000
                &&& t.nanosecond == r.nanosecond % 1_000_000_000
            },
    {
        if r.year < 0 || r.year > 9999 {
            return None;
        }
        Some(
            Timestamp {
                year: r.year as u32,
                month: r.month,
                day: r.day,
                hour: r.hour,
                minute: r.minute,
                second: r.second + r.nanosecond / 1_000_000_000,
                nanosecond: r.nanosecond % 1_000_000_000,
            },
        )
    }
}

impl Timestamp {
    /// The UTC time now, where the clock reads after the Unix epoch and the
    /// year lies in 0 to 9999.
    pub fn now() -> (t: Option<Timestamp>)
        ensures
            t matches Some(t) ==> {
                &&& t.year <= 9999
                &&& 1 <= t.month <= 12
                &&& 1 <= t.day <= 31
                &&& t.hour <= 23
                &&& t.minute <= 59
                &&& t.second <= 60
                &&& t.nanosecond < 1_000_000_000
            },
    {
        match unix_time_now() {
            Some((secs, nanos)) => {
                if secs > i64::MAX as u64 {
                    return None;
                }
                match utc_from_timestamp(secs as i64, nanos) {
                    Some(c) => Timestamp::from_clock(c),
                    None => None,
                }
            },
            None => None,
        }
    }
}

proof fn lemma_fixed_digits_no_slash(n: nat, width: nat)
    ensures
        forall|k: int| 0 <= k < fixed_digits(n, width).len() ==> fixed_digits(n, width)[k] != '/',
    decreases width,
{
    if width > 0 {
        lemma_fixed_digits_no_slash(n / 10, (width - 1) as nat);
        let prev = fixed_digits(n / 10, (width - 1) as nat);
        let d = digit_char(n % 10);
        assert(d != '/');
        assert forall|k: int| 0 <= k < fixed_digits(n, width).len() implies fixed_digits(
            n,
            width,
        )[k] != '/' by {
            if k < prev.len() {
                assert(fixed_digits(n, width)[k] == prev[k]);
            }
        }
    }
}

impl ClipId {
    /// Valid ids are non-empty and hold no `/`.
    pub open spec fn wf(&self) -> bool {
        &&& self@.len() > 0
        &&& forall|k: int| 0 <= k < self@.len() ==> self@[k] != '/'
    }

    /// The id of a recording that starts at `time`: `YYYY-MM-DD_hh-mm-ss.nnnnnnnnn`.
    pub fn from_datetimelocal(time: &Timestamp) -> (r: ClipId)
        ensures
            r@ == stamp_text(*time),
            r.wf(),
    {
        let mut s = String::new();
        push_fixed_digits(&mut s, time.year, 4);
        proof { reveal_strlit("-"); reveal_strlit("_"); reveal_strlit("."); }
        s.append("-");
        push_fixed_digits(&mut s, time.month, 2);
        s.append("-");
        push_fixed_digits(&mut s, time.day, 2);
        s.append("_");
        push_fixed_digits(&mut s, time.hour, 2);
        s.append("-");
        push_fixed_digits(&mut s, time.minute, 2);
        s.append("-");
        push_fixed_digits(&mut s, time.second, 2);
        s.append(".");
        push_fixed_digits(&mut s, time.nanosecond, 9);
        proof {
            assert(s@ =~= stamp_text(*time));
            lemma_fixed_digits_len(time.year as nat, 4);
            lemma_fixed_digits_no_slash(time.year as nat, 4);
            lemma_fixed_digits_no_slash(time.month as nat, 2);
            lemma_fixed_digits_no_slash(time.day as nat, 2);
            lemma_fixed_digits_no_slash(time.hour as nat, 2);
            lemma_fixed_digits_no_slash(time.minute as nat, 2);
            lemma_fixed_digits_no_slash(time.second as nat, 2);
            lemma_fixed_digits_no_slash(time.nanosecond as nat, 9);
        }
        ClipId(s)
    }

    /// The id of the clip stored at `path`: the stem of its file name, the
    /// last component once trailing `/` and `.` components are left out. None
    /// when there is no such component or it is `..`.
    pub fn from_path_ref(path: &str) -> (r: Option<ClipId>)
        ensures
            match r {
                Some(id) => path_stem(path@) == Some(id@) && id.wf(),
                None => path_stem(path@) is None,
            },
    {
        let e = trimmed_len(path);
        let trimmed = path.substring_char(0, e);
        assert(trimmed@ == trim_end(path@));
        proof {
            lemma_last_index_of_bounds(trimmed@, '/');
        }
        let start = match find_last(trimmed, '/') {
            Some(i) => i + 1,
            None => 0,
        };
        let name = trimmed.substring_char(start, e);
        assert(name@ =~= file_name_of(trimmed@));
        let m = name.unicode_len();
        if m == 0 {
            return None;
        }
        if m == 2 && name.get_char(0) == '.' && name.get_char(1) == '.' {
            assert(name@ =~= seq!['.', '.']);
            return None;
        }
        proof {
            lemma_last_index_of_bounds(name@, '.');
        }
        let stem = match find_last(name, '.') {
            Some(d) => {
                if d == 0 {
                    name
                } else {
                    name.substring_char(0, d)
                }
            },
            None => name,
        };
        assert(stem@ =~= stem_of(name@));
        assert(name@ != seq!['.', '.']);
        proof {
            assert forall|k: int| 0 <= k < stem@.len() implies stem@[k] != '/' by {
                assert(stem@[k] == name@[k]);
                assert(name@[k] == trimmed@[last_index_of(trimmed@, '/') + 1 + k]);
            }
        }
        Some(ClipId(String::from_str(stem)))
    }

    /// The file of this clip inside `base`: `base/<id>.wav`.
    pub fn absolute_path_wav(&self, base: &str) -> (r: String)
        ensures
            r@ == join_spec(base@, self@) + seq!['.', 'w', 'a', 'v'],
    {
        let mut p = join_path(base, self.0.as_str());
        proof { reveal_strlit(".wav"); }
        p.append(".wav");
        p
    }

    /// The id as text.
    pub fn as_str(&self) -> (r: &str)
        ensures
            r@ == self@,
    {
        self.0.as_str()
    }

    /// The id as an owned `String`.
    pub fn to_string(&self) -> (r: String)
        ensures
            r@ == self@,
    {
        self.0.clone()
    }
}

/// Whether a clip is still being recorded.
#[derive(Clone, Copy, Debug, PartialEq, Eq, Structural)]
pub enum ClipMode {
    Writable,
    ReadOnly,
}

#[derive(Debug)]
pub enum ClipError {
    /// No clip id can be made from this path.
    ClipIdResolutionFailure(String),
    /// The clip is finalized and takes no more samples.
    ReadOnly(ClipId),
}

/// One recorded or loaded clip: its id, its file, its samples in capture
/// order (16-bit signed, as stored in the file) and its mode.
#[derive(Debug)]
pub struct WavClip {
    id: ClipId,
    path: String,
    samples: Vec<i16>,
    sample_rate: u32,
    mode: ClipMode,
}

impl WavClip {
    pub closed spec fn spec_id(&self) -> ClipId {
        self.id
    }

    pub closed spec fn spec_path(&self) -> Seq<char> {
        self.path@
    }

    pub closed spec fn spec_samples(&self) -> Seq<i16> {
        self.samples@
    }

    pub closed spec fn spec_sample_rate(&self) -> u32 {
        self.sample_rate
    }

    pub closed spec fn spec_mode(&self) -> ClipMode {
        self.mode
    }

    pub open spec fn wf(&self) -> bool {
        self.spec_id().wf()
    }

    /// A writable clip with no samples, stored at `base/<id>.wav`.
    pub fn record_new(id: ClipId, base: &str, sample_rate: u32) -> (r: WavClip)
        requires
            id.wf(),
        ensures
            r.wf(),
            r.spec_id()@ == id@,
            r.spec_path() == join_spec(base@, id@) + seq!['.', 'w', 'a', 'v'],
            r.spec_samples().len() == 0,
            r.spec_sample_rate() == sample_rate,
            r.spec_mode() == ClipMode::Writable,
    {
        let path = id.absolute_path_wav(base);
        WavClip { id, path, samples: Vec::new(), sample_rate, mode: ClipMode::Writable }
    }

    /// A read-only clip holding the samples decoded from the file at `path`,
    /// its id taken from the file's stem.
    pub fn from_decoded(path: &str, sample_rate: u32, samples: Vec<i16>) -> (r: Result<
        WavClip,
        ClipError,
    >)
        ensures
            r is Ok <==> path_stem(path@) is Some,
            match r {
                Ok(c) => {
                    &&& c.wf()
                    &&& Some(c.spec_id()@) == path_stem(path@)
                    &&& c.spec_path() == path@
                    &&& c.spec_samples() == samples@
                    &&& c.spec_sample_rate() == sample_rate
                    &&& c.spec_mode() == ClipMode::ReadOnly
                },
                Err(ClipError::ClipIdResolutionFailure(p)) => p@ == path@,
                Err(_) => false,
            },
    {
        match ClipId::from_path_ref(path) {
            Some(id) => Ok(
                WavClip {
                    id,
                    path: String::from_str(path),
                    samples,
                    sample_rate,
                    mode: ClipMode::ReadOnly,
                },
            ),
            None => Err(ClipError::ClipIdResolutionFailure(String::from_str(path))),
        }
    }

    pub fn id(&self) -> (r: &ClipId)
        ensures
            r == self.spec_id(),
    {
        &self.id
    }

    pub fn path(&self) -> (r: &str)
        ensures
            r@ == self.spec_path(),
    {
        self.path.as_str()
    }

    pub fn samples(&self) -> (r: &[i16])
        ensures
            r@ == self.spec_samples(),
    {
        self.samples.as_slice()
    }

    pub fn sample_count(&self) -> (r: usize)
        ensures
            r == self.spec_samples().len(),
    {
        self.samples.len()
    }

    pub fn sample_rate(&self) -> (r: u32)
        ensures
            r == self.spec_sample_rate(),
    {
        self.sample_rate
    }

    pub fn is_writable(&self) -> (r: bool)
        ensures
            r == (self.spec_mode() == ClipMode::Writable),
    {
        self.mode == ClipMode::Writable
    }

    /// The samples with indices in `[start, end)`.
    pub fn samples_in(&self, start: usize, end: usize) -> (r: &[i16])
        requires
            start <= end <= self.spec_samples().len(),
        ensures
            r@ == self.spec_samples().subrange(start as int, end as int),
    {
        slice_subrange(self.samples.as_slice(), start, end)
    }

    /// Appends a batch to a writable clip. A read-only clip is left as it is
    /// and the call fails with `ReadOnly`.
    pub fn write_samples(&mut self, batch: &[i16]) -> (r: Result<(), ClipError>)
        ensures
            final(self).spec_id() == old(self).spec_id(),
            final(self).spec_path() == old(self).spec_path(),
            final(self).spec_sample_rate() == old(self).spec_sample_rate(),
            final(self).spec_mode() == old(self).spec_mode(),
            old(self).spec_mode() == ClipMode::Writable ==> r is Ok && final(self).spec_samples()
                == old(self).spec_samples() + batch@,
            old(self).spec_mode() == ClipMode::ReadOnly ==> final(self).spec_samples()
                == old(self).spec_samples() && match r {
                Err(ClipError::ReadOnly(id)) => id@ == old(self).spec_id()@,
                _ => false,
            },
    {
        if self.mode == ClipMode::ReadOnly {
            return Err(ClipError::ReadOnly(self.id.clone()));
        }
        let mut i: usize = 0;
        while i < batch.len()
            invariant
                i <= batch@.len(),
                self.samples@ == old(self).spec_samples() + batch@.subrange(0, i as int),
                self.id == old(self).spec_id(),
                self.path@ == old(self).spec_path(),
                self.sample_rate == old(self).spec_sample_rate(),
                self.mode == old(self).spec_mode(),
            decreases batch@.len() - i,
        {
            self.samples.push(batch[i]);
            assert(batch@.subrange(0, i + 1) =~= batch@.subrange(0, i as int).push(batch@[i as int]));
            i = i + 1;
        }
        assert(batch@.subrange(0, i as int) =~= batch@);
        Ok(())
    }

    /// Ends recording: the clip becomes read-only. Nothing else changes.
    pub fn finalize(&mut self)
        ensures
            final(self).spec_mode() == ClipMode::ReadOnly,
            final(self).spec_id() == old(self).spec_id(),
            final(self).spec_path() == old(self).spec_path(),
            final(self).spec_samples() == old(self).spec_samples(),
            final(self).spec_sample_rate() == old(self).spec_sample_rate(),
    {
        self.mode = ClipMode::ReadOnly;
    }
}

} // verus!