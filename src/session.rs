//! The session: a directory of clips, at most one of them recording, and the
//! device configuration that new recordings use.

use vstd::prelude::*;
use vstd::string::StringExecFns;
use crate::clip::{stamp_text, ClipError, ClipId, ClipMode, Timestamp, WavClip};
use crate::pipeline::DeviceConfig;
use crate::text::{
    fixed_digits, join_path, join_spec, lemma_text_lt_total, lemma_text_lt_transitive, path_stem,
    push_fixed_digits, text_less, text_lt,
};

verus! {

#[derive(Debug)]
pub enum SessionError {
    /// A clip is already being recorded.
    AlreadyRecording,
    /// No device configuration has been set.
    NoAudioConfiguration,
    /// No kept clip has this id.
    NoSuchClip(ClipId),
    /// A kept clip already has this id.
    ClipAlreadyExists(ClipId),
    /// No clip is being recorded.
    NotRecording,
    /// The clock could not be read, or gave a year outside 0 to 9999.
    ClockOutOfRange,
    /// The clip refused the operation.
    Audio(ClipError),
}

/// What `configure` changed.
#[derive(Debug)]
pub enum ConfigureOutcome {
    /// The configuration was the same; nothing changed.
    Unchanged,
    /// The configuration was replaced; nothing was recording.
    Reconfigured,
    /// The recording was stopped, the configuration replaced and a new
    /// recording started under this id.
    Restarted(ClipId),
}

/// `YYYY-MM-DD_hh-mm-ss`, the name of a session directory started at `t`.
pub open spec fn session_dir_text(t: Timestamp) -> Seq<char> {
    fixed_digits(t.year as nat, 4) + seq!['-'] + fixed_digits(t.month as nat, 2) + seq!['-']
        + fixed_digits(t.day as nat, 2) + seq!['_'] + fixed_digits(t.hour as nat, 2) + seq!['-']
        + fixed_digits(t.minute as nat, 2) + seq!['-'] + fixed_digits(t.second as nat, 2)
}

/// The directory of a session started at `time` under `base`.
pub fn session_path(base: &str, time: &Timestamp) -> (r: String)
    ensures
        r@ == join_spec(base@, session_dir_text(*time)),
{
    let mut s = String::new();
    proof { reveal_strlit("-"); reveal_strlit("_"); }
    push_fixed_digits(&mut s, time.year, 4);
    s.append("-");
    push_fixed_digits(&mut s, time.month, 2);
    s.append("-");
    push_fixed_digits(&mut s, time.day, 2);
    s.append("_");
    push_fixed_digits(&mut s, time.hour, 2);
    s.append("-");
    push_fixed_digits(&mut s, time.minute, 2);
    s.append("-");
    push_fixed_digits(&mut s, time.second, 2);
    assert(s@ =~= session_dir_text(*time));
    join_path(base, s.as_str())
}

/// The files of `entries` that a scan decodes, in order, when the ids in
/// `ids` are kept: those whose stem is an id not yet kept nor taken
/// by an earlier entry.
pub open spec fn pending_files(ids: Set<Seq<char>>, entries: Seq<Seq<char>>) -> Seq<Seq<char>>
    decreases entries.len(),
{
    if entries.len() == 0 {
        Seq::empty()
    } else {
        let e = entries[0];
        match path_stem(e) {
            Some(id) => if ids.contains(id) {
                pending_files(ids, entries.drop_first())
            } else {
                seq![e] + pending_files(ids.insert(id), entries.drop_first())
            },
            None => pending_files(ids, entries.drop_first()),
        }
    }
}

/// The clips' ids rise strictly, in the order of `text_lt`.
pub open spec fn ids_sorted(c: Seq<WavClip>) -> bool {
    forall|i: int, j: int|
        0 <= i < j < c.len() ==> text_lt(#[trigger] c[i].spec_id()@, #[trigger] c[j].spec_id()@)
}

proof fn lemma_sorted_insert(c: Seq<WavClip>, p: int, w: WavClip)
    requires
        ids_sorted(c),
        0 <= p <= c.len(),
        forall|k: int| 0 <= k < p ==> text_lt(#[trigger] c[k].spec_id()@, w.spec_id()@),
        p < c.len() ==> !text_lt(c[p].spec_id()@, w.spec_id()@),
        forall|k: int| 0 <= k < c.len() ==> #[trigger] c[k].spec_id()@ != w.spec_id()@,
    ensures
        ids_sorted(c.insert(p, w)),
{
    let d = c.insert(p, w);
    let x = w.spec_id()@;
    if p < c.len() {
        lemma_text_lt_total(c[p].spec_id()@, x);
    }
    assert forall|i: int, j: int| 0 <= i < j < d.len() implies text_lt(
        #[trigger] d[i].spec_id()@,
        #[trigger] d[j].spec_id()@,
    ) by {
        if j < p {
            assert(d[i] == c[i] && d[j] == c[j]);
        } else if j == p {
            assert(d[i] == c[i] && d[j] == w);
        } else if i < p {
            assert(d[i] == c[i] && d[j] == c[j - 1]);
        } else if i == p {
            assert(d[i] == w && d[j] == c[j - 1]);
            if j - 1 > p {
                lemma_text_lt_transitive(x, c[p].spec_id()@, c[j - 1].spec_id()@);
            }
        } else {
            assert(d[i] == c[i - 1] && d[j] == c[j - 1]);
        }
    }
}

proof fn lemma_sorted_remove(c: Seq<WavClip>, p: int)
    requires
        ids_sorted(c),
        0 <= p < c.len(),
    ensures
        ids_sorted(c.remove(p)),
{
    let d = c.remove(p);
    assert forall|i: int, j: int| 0 <= i < j < d.len() implies text_lt(
        #[trigger] d[i].spec_id()@,
        #[trigger] d[j].spec_id()@,
    ) by {
        let i0 = if i < p { i } else { i + 1 };
        let j0 = if j < p { j } else { j + 1 };
        assert(d[i] == c[i0] && d[j] == c[j0]);
    }
}

/// The clips of one recording session, kept in increasing order of id.
pub struct Session {
    path: String,
    clips: Vec<WavClip>,
    recording: Option<usize>,
    audioconfig: Option<DeviceConfig>,
}

impl Session {
    pub closed spec fn spec_path(&self) -> Seq<char> {
        self.path@
    }

    pub closed spec fn spec_clips(&self) -> Seq<WavClip> {
        self.clips@
    }

    /// Index of the clip being recorded.
    pub closed spec fn spec_recording(&self) -> Option<usize> {
        self.recording
    }

    pub closed spec fn spec_config(&self) -> Option<DeviceConfig> {
        self.audioconfig
    }

    /// The ids of the kept clips.
    pub open spec fn kept_ids(&self) -> Set<Seq<char>> {
        Set::new(|id: Seq<char>| exists|i: int| 0 <= i < self.spec_clips().len() && self.spec_clips()[i].spec_id()@ == id)
    }

    /// Ids are valid and kept in increasing order, so distinct; exactly the
    /// clip at `spec_recording` is writable, so at most one is.
    pub open spec fn wf(&self) -> bool {
        let c = self.spec_clips();
        &&& forall|i: int| 0 <= i < c.len() ==> #[trigger] c[i].wf()
        &&& ids_sorted(c)
        &&& forall|i: int|
            0 <= i < c.len() ==> (#[trigger] c[i].spec_mode() == ClipMode::Writable
                <==> (self.spec_recording() is Some && self.spec_recording()->0 as int == i))
        &&& self.spec_recording() matches Some(r) ==> r < c.len()
    }

    /// An empty, unconfigured session over the directory `path`.
    pub fn new(path: &str) -> (r: Session)
        ensures
            r.wf(),
            r.spec_path() == path@,
            r.spec_clips().len() == 0,
            r.spec_recording() is None,
            r.spec_config() is None,
    {
        Session { path: String::from_str(path), clips: Vec::new(), recording: None, audioconfig: None }
    }

    pub fn path(&self) -> (r: &str)
        ensures
            r@ == self.spec_path(),
    {
        self.path.as_str()
    }

    pub fn is_configured(&self) -> (r: bool)
        ensures
            r == self.spec_config() is Some,
    {
        self.audioconfig.is_some()
    }

    pub fn configuration(&self) -> (r: Option<DeviceConfig>)
        ensures
            r is Some == self.spec_config() is Some,
            r matches Some(c) ==> c.same_as(&self.spec_config()->0),
    {
        match &self.audioconfig {
            Some(c) => Some(c.clone()),
            None => None,
        }
    }

    pub fn is_recording(&self) -> (r: bool)
        ensures
            r == self.spec_recording() is Some,
    {
        self.recording.is_some()
    }

    /// The kept clips, in increasing order of id.
    pub fn clips(&self) -> (r: &[WavClip])
        ensures
            r@ == self.spec_clips(),
    {
        self.clips.as_slice()
    }

    /// The ids of the kept clips, in increasing order.
    pub fn clip_ids(&self) -> (r: Vec<ClipId>)
        requires
            self.wf(),
        ensures
            forall|i: int, j: int| 0 <= i < j < r@.len() ==> text_lt(#[trigger] r@[i]@, #[trigger] r@[j]@),
            r@.len() == self.spec_clips().len(),
            forall|i: int| 0 <= i < r@.len() ==> r@[i]@ == self.spec_clips()[i].spec_id()@,
    {
        let mut out: Vec<ClipId> = Vec::new();
        let mut i: usize = 0;
        while i < self.clips.len()
            invariant
                i <= self.clips@.len(),
                out@.len() == i,
                forall|k: int| 0 <= k < i ==> out@[k]@ == self.clips@[k].spec_id()@,
            decreases self.clips@.len() - i,
        {
            out.push(self.clips[i].id().clone());
            i = i + 1;
        }
        out
    }

    /// The file of the clip `clip_id` in this session: `<path>/<id>.wav`.
    pub fn clip_id_to_abs_path(&self, clip_id: &ClipId) -> (r: String)
        ensures
            r@ == join_spec(self.spec_path(), clip_id@) + seq!['.', 'w', 'a', 'v'],
    {
        clip_id.absolute_path_wav(self.path.as_str())
    }

    /// Index of the kept clip with this id.
    pub fn position_of(&self, clip_id: &ClipId) -> (r: Option<usize>)
        ensures
            match r {
                Some(i) => i < self.spec_clips().len() && self.spec_clips()[i as int].spec_id()@
                    == clip_id@,
                None => forall|i: int|
                    0 <= i < self.spec_clips().len() ==> self.spec_clips()[i].spec_id()@
                        != clip_id@,
            },
    {
        let mut i: usize = 0;
        while i < self.clips.len()
            invariant
                i <= self.clips@.len(),
                forall|k: int| 0 <= k < i ==> self.clips@[k].spec_id()@ != clip_id@,
            decreases self.clips@.len() - i,
        {
            if self.clips[i].id() == clip_id {
                return Some(i);
            }
            i = i + 1;
        }
        None
    }

    /// Where a clip with id `id` goes: after every kept id below it.
    fn insert_pos(&self, id: &ClipId) -> (p: usize)
        requires
            self.wf(),
        ensures
            p <= self.spec_clips().len(),
            forall|k: int| 0 <= k < p ==> text_lt(#[trigger] self.spec_clips()[k].spec_id()@, id@),
            p < self.spec_clips().len() ==> !text_lt(self.spec_clips()[p as int].spec_id()@, id@),
    {
        let mut i: usize = 0;
        while i < self.clips.len() && text_less(self.clips[i].id().as_str(), id.as_str())
            invariant
                i <= self.clips@.len(),
                forall|k: int| 0 <= k < i ==> text_lt(#[trigger] self.clips@[k].spec_id()@, id@),
            decreases self.clips@.len() - i,
        {
            i = i + 1;
        }
        i
    }

    /// The kept clip with this id; `NoSuchClip` when there is none.
    pub fn clip(&self, clip_id: &ClipId) -> (r: Result<&WavClip, SessionError>)
        ensures
            r is Ok <==> self.kept_ids().contains(clip_id@),
            r matches Ok(c) ==> c.spec_id()@ == clip_id@ && self.spec_clips().contains(*c),
            r matches Err(e) ==> e matches SessionError::NoSuchClip(id) && id@ == clip_id@,
    {
        match self.position_of(clip_id) {
            Some(i) => {
                assert(self.kept_ids().contains(clip_id@));
                Ok(&self.clips[i])
            },
            None => Err(SessionError::NoSuchClip(clip_id.clone())),
        }
    }
}

impl Session {
    /// Starts recording a new clip whose id is made from `time`: an empty,
    /// writable clip at `<path>/<id>.wav` at the configured sample rate.
    /// Fails, changing nothing, with `AlreadyRecording` while a clip records,
    /// with `NoAudioConfiguration` before a configuration is set, and with
    /// `ClipAlreadyExists` when a kept clip has that id.
    pub fn record_new_clip_at(&mut self, time: &Timestamp) -> (r: Result<ClipId, SessionError>)
        requires
            old(self).wf(),
        ensures
            final(self).wf(),
            old(self).spec_recording() is Some ==> (r matches Err(SessionError::AlreadyRecording)
                && *final(self) == *old(self)),
            old(self).spec_recording() is None && old(self).spec_config() is None ==> (r matches Err(
                SessionError::NoAudioConfiguration,
            ) && *final(self) == *old(self)),
            old(self).spec_recording() is None && old(self).spec_config() is Some
                && old(self).kept_ids().contains(stamp_text(*time)) ==> (r matches Err(
                SessionError::ClipAlreadyExists(id),
            ) && id@ == stamp_text(*time) && *final(self) == *old(self)),
            old(self).spec_recording() is None && old(self).spec_config() is Some
                && !old(self).kept_ids().contains(stamp_text(*time)) ==> {
                let p = final(self).spec_recording()->0;
                let c = final(self).spec_clips()[p as int];
                &&& r matches Ok(id) && id@ == stamp_text(*time)
                &&& final(self).spec_recording() is Some
                &&& p <= old(self).spec_clips().len()
                &&& final(self).spec_clips() == old(self).spec_clips().insert(p as int, c)
                &&& c.spec_id()@ == stamp_text(*time)
                &&& c.spec_path() == join_spec(old(self).spec_path(), stamp_text(*time)) + seq![
                    '.',
                    'w',
                    'a',
                    'v',
                ]
                &&& c.spec_samples().len() == 0
                &&& c.spec_sample_rate() == old(self).spec_config()->0.sample_rate
                &&& c.spec_mode() == ClipMode::Writable
                &&& final(self).spec_path() == old(self).spec_path()
                &&& final(self).spec_config() == old(self).spec_config()
            },
    {
        if self.recording.is_some() {
            return Err(SessionError::AlreadyRecording);
        }
        let rate = match &self.audioconfig {
            Some(c) => c.sample_rate,
            None => {
                return Err(SessionError::NoAudioConfiguration);
            },
        };
        let id = ClipId::from_datetimelocal(time);
        if self.position_of(&id).is_some() {
            return Err(SessionError::ClipAlreadyExists(id));
        }
        assert(!self.kept_ids().contains(id@));
        let clip = WavClip::record_new(id.clone(), self.path.as_str(), rate);
        let p = self.insert_pos(&id);
        let ghost c0 = self.clips@;
        proof {
            lemma_sorted_insert(c0, p as int, clip);
        }
        self.clips.insert(p, clip);
        self.recording = Some(p);
        assert forall|k: int| 0 <= k < self.clips@.len() implies #[trigger] self.clips@[k].wf() && (
        self.clips@[k].spec_mode() == ClipMode::Writable <==> k == p) by {
            if k < p {
                assert(self.clips@[k] == c0[k]);
            } else if k > p {
                assert(self.clips@[k] == c0[k - 1]);
            }
        }
        Ok(id)
    }

    /// Starts recording a new clip whose id is made from the UTC time now;
    /// fails as `record_new_clip_at` does, and with `ClockOutOfRange` when the
    /// clock gives a year outside 0 to 9999. A failure changes nothing.
    pub fn record_new_clip(&mut self) -> (r: Result<ClipId, SessionError>)
        requires
            old(self).wf(),
        ensures
            final(self).wf(),
            old(self).spec_recording() is Some ==> r matches Err(SessionError::AlreadyRecording),
            old(self).spec_recording() is None && old(self).spec_config() is None ==> r matches Err(
                SessionError::NoAudioConfiguration,
            ),
            old(self).spec_recording() is None && old(self).spec_config() is Some ==> (r is Ok
                || r matches Err(SessionError::ClockOutOfRange) || r matches Err(
                SessionError::ClipAlreadyExists(_),
            )),
            r is Err ==> *final(self) == *old(self),
            r matches Ok(id) ==> {
                let p = final(self).spec_recording()->0;
                let c = final(self).spec_clips()[p as int];
                &&& final(self).spec_recording() is Some
                &&& p <= old(self).spec_clips().len()
                &&& final(self).spec_clips() == old(self).spec_clips().insert(p as int, c)
                &&& c.spec_id()@ == id@
                &&& c.spec_path() == join_spec(old(self).spec_path(), id@) + seq![
                    '.',
                    'w',
                    'a',
                    'v',
                ]
                &&& c.spec_samples().len() == 0
                &&& c.spec_sample_rate() == old(self).spec_config()->0.sample_rate
                &&& c.spec_mode() == ClipMode::Writable
                &&& final(self).spec_path() == old(self).spec_path()
                &&& final(self).spec_config() == old(self).spec_config()
            },
    {
        if self.recording.is_some() {
            return Err(SessionError::AlreadyRecording);
        }
        if self.audioconfig.is_none() {
            return Err(SessionError::NoAudioConfiguration);
        }
        match Timestamp::now() {
            Some(t) => {
                let r = self.record_new_clip_at(&t);
                proof {
                    if r is Ok {
                        assert(!old(self).kept_ids().contains(stamp_text(t)));
                    }
                }
                r
            },
            None => Err(SessionError::ClockOutOfRange),
        }
    }

    /// Stops the recording, if any: its clip becomes read-only and its id is
    /// returned. Without a recording nothing changes.
    pub fn stop_recording(&mut self) -> (r: Option<ClipId>)
        requires
            old(self).wf(),
        ensures
            final(self).wf(),
            final(self).spec_recording() is None,
            old(self).spec_recording() is None ==> r is None && *final(self) == *old(self),
            old(self).spec_recording() matches Some(i) ==> {
                let c = old(self).spec_clips()[i as int];
                let d = final(self).spec_clips()[i as int];
                &&& r matches Some(id) && id@ == c.spec_id()@
                &&& final(self).spec_clips().len() == old(self).spec_clips().len()
                &&& forall|k: int|
                    0 <= k < old(self).spec_clips().len() && k != i ==> final(self).spec_clips()[k]
                        == old(self).spec_clips()[k]
                &&& d.spec_mode() == ClipMode::ReadOnly
                &&& d.spec_id() == c.spec_id()
                &&& d.spec_path() == c.spec_path()
                &&& d.spec_samples() == c.spec_samples()
                &&& d.spec_sample_rate() == c.spec_sample_rate()
            },
            final(self).spec_path() == old(self).spec_path(),
            final(self).spec_config() == old(self).spec_config(),
    {
        match self.recording {
            Some(i) => {
                let mut c = self.clips.remove(i);
                c.finalize();
                let id = c.id().clone();
                self.clips.insert(i, c);
                self.recording = None;
                let ghost c0 = old(self).spec_clips();
                assert(forall|k: int| 0 <= k < self.clips@.len() && k != i ==> self.clips@[k] == c0[k]);
                assert(self.clips@[i as int].spec_id() == c0[i as int].spec_id());
                assert forall|k: int| 0 <= k < self.clips@.len() implies #[trigger] self.clips@[k].wf() by {
                    assert(c0[k].wf());
                }
                assert forall|k: int| 0 <= k < self.clips@.len() implies #[trigger] self.clips@[k].spec_mode()
                    != ClipMode::Writable by {
                    if k != i {
                        assert(c0[k].spec_mode() != ClipMode::Writable);
                    }
                }
                assert forall|a: int, b: int| 0 <= a < b < self.clips@.len() implies text_lt(
                    #[trigger] self.clips@[a].spec_id()@,
                    #[trigger] self.clips@[b].spec_id()@,
                ) by {
                    assert(self.clips@[a].spec_id() == c0[a].spec_id());
                    assert(self.clips@[b].spec_id() == c0[b].spec_id());
                }
                Some(id)
            },
            None => None,
        }
    }

    /// Drops the clip being recorded, for a recording whose file or stream
    /// could not be opened. Without a recording nothing changes.
    pub fn abandon_recording(&mut self) -> (r: Option<ClipId>)
        requires
            old(self).wf(),
        ensures
            final(self).wf(),
            final(self).spec_recording() is None,
            old(self).spec_recording() is None ==> r is None && *final(self) == *old(self),
            old(self).spec_recording() matches Some(i) ==> {
                &&& r matches Some(id) && id@ == old(self).spec_clips()[i as int].spec_id()@
                &&& final(self).spec_clips() == old(self).spec_clips().remove(i as int)
            },
            final(self).spec_path() == old(self).spec_path(),
            final(self).spec_config() == old(self).spec_config(),
    {
        match self.recording {
            Some(i) => {
                let c = self.clips.remove(i);
                self.recording = None;
                let ghost c0 = old(self).spec_clips();
                proof {
                    lemma_sorted_remove(c0, i as int);
                }
                assert forall|k: int| 0 <= k < self.clips@.len() implies #[trigger] self.clips@[k].spec_mode()
                    != ClipMode::Writable by {
                    let k0 = if k < i { k } else { k + 1 };
                    assert(self.clips@[k] == c0[k0]);
                }
                Some(c.id().clone())
            },
            None => None,
        }
    }

    /// Appends a captured batch to the clip being recorded; `NotRecording`
    /// when there is none.
    pub fn record_samples(&mut self, batch: &[i16]) -> (r: Result<(), SessionError>)
        requires
            old(self).wf(),
        ensures
            final(self).wf(),
            final(self).spec_recording() == old(self).spec_recording(),
            final(self).spec_path() == old(self).spec_path(),
            final(self).spec_config() == old(self).spec_config(),
            old(self).spec_recording() is None ==> (r matches Err(SessionError::NotRecording)
                && *final(self) == *old(self)),
            old(self).spec_recording() matches Some(i) ==> {
                let c = old(self).spec_clips()[i as int];
                let d = final(self).spec_clips()[i as int];
                &&& r is Ok
                &&& final(self).spec_clips().len() == old(self).spec_clips().len()
                &&& forall|k: int|
                    0 <= k < old(self).spec_clips().len() && k != i ==> final(self).spec_clips()[k]
                        == old(self).spec_clips()[k]
                &&& d.spec_samples() == c.spec_samples() + batch@
                &&& d.spec_mode() == c.spec_mode()
                &&& d.spec_id() == c.spec_id()
                &&& d.spec_path() == c.spec_path()
                &&& d.spec_sample_rate() == c.spec_sample_rate()
            },
    {
        match self.recording {
            Some(i) => {
                let mut c = self.clips.remove(i);
                let w = c.write_samples(batch);
                self.clips.insert(i, c);
                let ghost c0 = old(self).spec_clips();
                assert(forall|k: int| 0 <= k < self.clips@.len() && k != i ==> self.clips@[k] == c0[k]);
                assert(self.clips@[i as int].spec_id() == c0[i as int].spec_id());
                assert forall|k: int| 0 <= k < self.clips@.len() implies #[trigger] self.clips@[k].wf() by {
                    assert(c0[k].wf());
                }
                assert forall|k: int| 0 <= k < self.clips@.len() implies (#[trigger] self.clips@[k].spec_mode()
                    == ClipMode::Writable <==> (self.recording is Some && self.recording->0 as int == k)) by {
                    assert(c0[k].spec_mode() == ClipMode::Writable <==> (old(self).recording is Some
                        && old(self).recording->0 as int == k));
                }
                assert forall|a: int, b: int| 0 <= a < b < self.clips@.len() implies text_lt(
                    #[trigger] self.clips@[a].spec_id()@,
                    #[trigger] self.clips@[b].spec_id()@,
                ) by {
                    assert(self.clips@[a].spec_id() == c0[a].spec_id());
                    assert(self.clips@[b].spec_id() == c0[b].spec_id());
                }
                match w {
                    Ok(()) => Ok(()),
                    Err(e) => Err(SessionError::Audio(e)),
                }
            },
            None => Err(SessionError::NotRecording),
        }
    }
}

/// The ids that the files of `files` resolve to.
pub open spec fn file_stems(files: Seq<Seq<char>>) -> Set<Seq<char>> {
    Set::new(|x: Seq<char>| exists|k: int| 0 <= k < files.len() && path_stem(files[k]) == Some(x))
}

proof fn lemma_pending_covered(s: Set<Seq<char>>, t: Set<Seq<char>>, entries: Seq<Seq<char>>)
    requires
        s.subset_of(t),
        file_stems(pending_files(s, entries)).subset_of(t),
    ensures
        pending_files(t, entries).len() == 0,
    decreases entries.len(),
{
    if entries.len() > 0 {
        let e = entries[0];
        let rest = entries.drop_first();
        match path_stem(e) {
            Some(id) => {
                if s.contains(id) {
                    lemma_pending_covered(s, t, rest);
                } else {
                    let p = pending_files(s.insert(id), rest);
                    assert(pending_files(s, entries) == seq![e] + p);
                    assert((seq![e] + p)[0] == e);
                    assert(file_stems(pending_files(s, entries)).contains(id));
                    assert forall|x: Seq<char>| file_stems(p).contains(x) implies t.contains(x) by {
                        let k = choose|k: int| 0 <= k < p.len() && path_stem(p[k]) == Some(x);
                        assert((seq![e] + p)[k + 1] == p[k]);
                        assert(file_stems(pending_files(s, entries)).contains(x));
                    }
                    lemma_pending_covered(s.insert(id), t, rest);
                }
            },
            None => {
                lemma_pending_covered(s, t, rest);
            },
        }
    }
}

/// Scanning an unchanged directory a second time decodes nothing: once the
/// clips of all pending files are kept, no file is pending.
pub proof fn lemma_rescan_idempotent(kept: Set<Seq<char>>, entries: Seq<Seq<char>>)
    ensures
        pending_files(kept.union(file_stems(pending_files(kept, entries))), entries).len()
            == 0,
{
    lemma_pending_covered(
        kept,
        kept.union(file_stems(pending_files(kept, entries))),
        entries,
    );
}

/// The files pending in a scan resolve to distinct ids, none of them already
/// kept: taking them all in adds no duplicate.
pub proof fn lemma_pending_fresh(kept: Set<Seq<char>>, entries: Seq<Seq<char>>)
    ensures
        forall|k: int|
            0 <= k < pending_files(kept, entries).len() ==> {
                &&& #[trigger] path_stem(pending_files(kept, entries)[k]) is Some
                &&& !kept.contains(path_stem(pending_files(kept, entries)[k])->0)
                &&& forall|j: int|
                    0 <= j < k ==> path_stem(pending_files(kept, entries)[j]) != path_stem(
                        pending_files(kept, entries)[k],
                    )
            },
    decreases entries.len(),
{
    if entries.len() > 0 {
        let e = entries[0];
        let rest = entries.drop_first();
        match path_stem(e) {
            Some(id) => {
                if kept.contains(id) {
                    lemma_pending_fresh(kept, rest);
                } else {
                    let q = pending_files(kept.insert(id), rest);
                    lemma_pending_fresh(kept.insert(id), rest);
                    let p = pending_files(kept, entries);
                    assert(p == seq![e] + q);
                    assert forall|k: int| 0 <= k < p.len() implies {
                        &&& #[trigger] path_stem(p[k]) is Some
                        &&& !kept.contains(path_stem(p[k])->0)
                        &&& forall|j: int| 0 <= j < k ==> path_stem(p[j]) != path_stem(p[k])
                    } by {
                        if k > 0 {
                            assert(p[k] == q[k - 1]);
                            assert(path_stem(q[k - 1]) is Some);
                            assert forall|j: int| 0 <= j < k implies path_stem(p[j]) != path_stem(p[k]) by {
                                if j > 0 {
                                    assert(p[j] == q[j - 1]);
                                    assert(path_stem(q[j - 1]) != path_stem(q[k - 1]));
                                } else {
                                    assert(p[0] == e);
                                    assert(!kept.insert(id).contains(path_stem(q[k - 1])->0));
                                }
                            }
                        } else {
                            assert(p[0] == e);
                        }
                    }
                }
            },
            None => {
                lemma_pending_fresh(kept, rest);
            },
        }
    }
}

fn contains_id(ids: &Vec<ClipId>, id: &ClipId) -> (r: bool)
    ensures
        r <==> exists|k: int| 0 <= k < ids@.len() && ids@[k]@ == id@,
{
    let mut i: usize = 0;
    while i < ids.len()
        invariant
            i <= ids@.len(),
            forall|k: int| 0 <= k < i ==> ids@[k]@ != id@,
        decreases ids@.len() - i,
    {
        if &ids[i] == id {
            return true;
        }
        i = i + 1;
    }
    false
}

pub open spec fn id_set(ids: Seq<ClipId>) -> Set<Seq<char>> {
    Set::new(|x: Seq<char>| exists|k: int| 0 <= k < ids.len() && ids[k]@ == x)
}

pub open spec fn texts(v: Seq<String>) -> Seq<Seq<char>> {
    v.map_values(|e: String| e@)
}

impl Session {
    /// The files among `entries` (the regular files of the session
    /// directory) that a scan decodes: in order, those whose stem is an id
    /// that no kept clip and no earlier entry has.
    pub fn pending_clip_files(&self, entries: &Vec<String>) -> (r: Vec<String>)
        ensures
            texts(r@) == pending_files(self.kept_ids(), texts(entries@)),
    {
        let ghost ids0 = self.kept_ids();
        let ghost es = texts(entries@);
        let mut out: Vec<String> = Vec::new();
        let mut seen: Vec<ClipId> = Vec::new();
        let mut i: usize = 0;
        assert(es.subrange(0, es.len() as int) =~= es);
        assert(texts(out@) =~= Seq::<Seq<char>>::empty());
        assert(ids0.union(id_set(seen@)) =~= ids0);
        assert(texts(out@) + pending_files(ids0, es) =~= pending_files(ids0, es));
        while i < entries.len()
            invariant
                i <= entries@.len(),
                es == texts(entries@),
                ids0 == self.kept_ids(),
                texts(out@) + pending_files(ids0.union(id_set(seen@)), es.subrange(i as int, es.len() as int))
                    == pending_files(ids0, es),
            decreases entries@.len() - i,
        {
            let ghost sset = ids0.union(id_set(seen@));
            let ghost sub = es.subrange(i as int, es.len() as int);
            let ghost rest = es.subrange(i + 1, es.len() as int);
            assert(sub.drop_first() =~= rest);
            assert(sub[0] == entries@[i as int]@);
            match ClipId::from_path_ref(entries[i].as_str()) {
                Some(id) => {
                    let kept = self.position_of(&id).is_some();
                    let before = contains_id(&seen, &id);
                    if kept || before {
                        assert(sset.contains(id@));
                    } else {
                        assert(!sset.contains(id@));
                        let ghost old_out = texts(out@);
                        let ghost old_seen = seen@;
                        out.push(entries[i].clone());
                        seen.push(id);
                        assert(texts(out@) =~= old_out.push(entries@[i as int]@));
                        assert(ids0.union(id_set(seen@)) =~= sset.insert(id@)) by {
                            assert forall|x: Seq<char>| id_set(seen@).contains(x) <==> (id_set(old_seen).contains(x) || x == id@) by {
                                if id_set(old_seen).contains(x) {
                                    let k = choose|k: int| 0 <= k < old_seen.len() && old_seen[k]@ == x;
                                    assert(seen@[k] == old_seen[k]);
                                }
                                if x == id@ {
                                    assert(seen@[old_seen.len() as int]@ == x);
                                }
                                if id_set(seen@).contains(x) {
                                    let k = choose|k: int| 0 <= k < seen@.len() && seen@[k]@ == x;
                                    if k < old_seen.len() {
                                        assert(seen@[k] == old_seen[k]);
                                    }
                                }
                            }
                        }
                        assert(old_out + (seq![entries@[i as int]@] + pending_files(sset.insert(id@), rest))
                            =~= texts(out@) + pending_files(sset.insert(id@), rest));
                    }
                },
                None => {},
            }
            i = i + 1;
        }
        assert(es.subrange(i as int, es.len() as int) =~= Seq::<Seq<char>>::empty());
        assert(texts(out@) + Seq::<Seq<char>>::empty() =~= texts(out@));
        out
    }

    /// Tracks a clip decoded from the session directory. Fails, changing
    /// nothing, with `ClipAlreadyExists` when a kept clip has its id.
    pub fn track_clip(&mut self, clip: WavClip) -> (r: Result<(), SessionError>)
        requires
            old(self).wf(),
            clip.wf(),
            clip.spec_mode() == ClipMode::ReadOnly,
        ensures
            final(self).wf(),
            old(self).kept_ids().contains(clip.spec_id()@) ==> (r matches Err(
                SessionError::ClipAlreadyExists(id),
            ) && id@ == clip.spec_id()@ && *final(self) == *old(self)),
            !old(self).kept_ids().contains(clip.spec_id()@) ==> {
                &&& r is Ok
                &&& (exists|p: int|
                    0 <= p <= old(self).spec_clips().len() && final(self).spec_clips()
                        == old(self).spec_clips().insert(p, clip))
                &&& final(self).spec_recording() is Some == old(self).spec_recording() is Some
                &&& (old(self).spec_recording() is Some ==> final(self).spec_clips()[final(self).spec_recording()->0 as int]
                    == old(self).spec_clips()[old(self).spec_recording()->0 as int])
                &&& final(self).spec_path() == old(self).spec_path()
                &&& final(self).spec_config() == old(self).spec_config()
            },
    {
        if let Some(i) = self.position_of(clip.id()) {
            return Err(SessionError::ClipAlreadyExists(clip.id().clone()));
        }
        assert(!self.kept_ids().contains(clip.spec_id()@));
        let p = self.insert_pos(clip.id());
        let ghost c0 = self.clips@;
        proof {
            lemma_sorted_insert(c0, p as int, clip);
        }
        self.clips.insert(p, clip);
        match self.recording {
            Some(i) => {
                let n = self.clips.len();
                if p <= i {
                    self.recording = Some(i + 1);
                }
            },
            None => {},
        }
        assert forall|k: int| 0 <= k < self.clips@.len() implies #[trigger] self.clips@[k].wf() && (
        self.clips@[k].spec_mode() == ClipMode::Writable <==> (self.recording is Some
            && self.recording->0 as int == k)) by {
            if k < p {
                assert(self.clips@[k] == c0[k]);
            } else if k > p {
                assert(self.clips@[k] == c0[k - 1]);
            }
        }
        assert(self.clips@ == c0.insert(p as int, clip));
        Ok(())
    }

    /// Replaces the device configuration. The same configuration changes
    /// nothing. While a clip records, the recording is stopped, the
    /// configuration replaced and a new recording started under the id made
    /// from `time`; when a kept clip has that id, the call fails with
    /// `ClipAlreadyExists` before anything changes.
    pub fn configure_at(&mut self, newconfig: DeviceConfig, time: &Timestamp) -> (r: Result<
        ConfigureOutcome,
        SessionError,
    >)
        requires
            old(self).wf(),
        ensures
            final(self).wf(),
            final(self).spec_path() == old(self).spec_path(),
            (old(self).spec_config() matches Some(c) && c.same_as(&newconfig)) ==> (r matches Ok(
                ConfigureOutcome::Unchanged,
            ) && *final(self) == *old(self)),
            !(old(self).spec_config() matches Some(c) && c.same_as(&newconfig))
                && old(self).spec_recording() is None ==> {
                &&& r matches Ok(ConfigureOutcome::Reconfigured)
                &&& final(self).spec_config() == Some(newconfig)
                &&& final(self).spec_clips() == old(self).spec_clips()
                &&& final(self).spec_recording() is None
            },
            !(old(self).spec_config() matches Some(c) && c.same_as(&newconfig))
                && old(self).spec_recording() is Some && old(self).kept_ids().contains(
                stamp_text(*time),
            ) ==> (r matches Err(SessionError::ClipAlreadyExists(id)) && id@ == stamp_text(*time)
                && *final(self) == *old(self)),
            !(old(self).spec_config() matches Some(c) && c.same_as(&newconfig))
                && old(self).spec_recording() is Some && !old(self).kept_ids().contains(
                stamp_text(*time),
            ) ==> {
                let i = old(self).spec_recording()->0;
                let p = final(self).spec_recording()->0;
                let c = final(self).spec_clips()[p as int];
                let rest = final(self).spec_clips().remove(p as int);
                &&& r matches Ok(ConfigureOutcome::Restarted(id)) && id@ == stamp_text(*time)
                &&& final(self).spec_config() == Some(newconfig)
                &&& final(self).spec_recording() is Some
                &&& p <= old(self).spec_clips().len()
                &&& final(self).spec_clips().len() == old(self).spec_clips().len() + 1
                &&& rest.len() == old(self).spec_clips().len()
                &&& forall|k: int|
                    0 <= k < rest.len() && k != i ==> rest[k] == old(self).spec_clips()[k]
                &&& rest[i as int].spec_mode() == ClipMode::ReadOnly
                &&& rest[i as int].spec_id() == old(self).spec_clips()[i as int].spec_id()
                &&& rest[i as int].spec_samples() == old(self).spec_clips()[i as int].spec_samples()
                &&& rest[i as int].spec_path() == old(self).spec_clips()[i as int].spec_path()
                &&& c.spec_id()@ == stamp_text(*time)
                &&& c.spec_mode() == ClipMode::Writable
                &&& c.spec_samples().len() == 0
                &&& c.spec_sample_rate() == newconfig.sample_rate
                &&& c.spec_path() == join_spec(old(self).spec_path(), stamp_text(*time)) + seq![
                    '.',
                    'w',
                    'a',
                    'v',
                ]
            },
    {
        let same = match &self.audioconfig {
            Some(c) => c.eq(&newconfig),
            None => false,
        };
        if same {
            return Ok(ConfigureOutcome::Unchanged);
        }
        if self.recording.is_none() {
            self.audioconfig = Some(newconfig);
            return Ok(ConfigureOutcome::Reconfigured);
        }
        let id = ClipId::from_datetimelocal(time);
        if self.position_of(&id).is_some() {
            return Err(SessionError::ClipAlreadyExists(id));
        }
        let ghost mid0 = self.kept_ids();
        self.stop_recording();
        assert(self.kept_ids() =~= mid0) by {
            assert forall|x: Seq<char>| self.kept_ids().contains(x) <==> mid0.contains(x) by {
                if mid0.contains(x) {
                    let k = choose|k: int| 0 <= k < old(self).spec_clips().len() && old(self).spec_clips()[k].spec_id()@ == x;
                    assert(self.spec_clips()[k].spec_id()@ == x);
                }
                if self.kept_ids().contains(x) {
                    let k = choose|k: int| 0 <= k < self.spec_clips().len() && self.spec_clips()[k].spec_id()@ == x;
                    assert(old(self).spec_clips()[k].spec_id()@ == x);
                }
            }
        }
        self.audioconfig = Some(newconfig);
        let ghost stopped = self.spec_clips();
        match self.record_new_clip_at(time) {
            Ok(nid) => {
                assert(self.spec_clips().remove(self.spec_recording()->0 as int) =~= stopped);
                Ok(ConfigureOutcome::Restarted(nid))
            },
            Err(e) => Err(e),
        }
    }

    /// Replaces the device configuration as `configure_at` does, the new
    /// recording's id made from the UTC time now; fails with
    /// `ClockOutOfRange` when the clock gives a year outside 0 to 9999. A
    /// failure changes nothing.
    pub fn configure(&mut self, newconfig: DeviceConfig) -> (r: Result<ConfigureOutcome, SessionError>)
        requires
            old(self).wf(),
        ensures
            final(self).wf(),
            final(self).spec_path() == old(self).spec_path(),
            (old(self).spec_config() matches Some(c) && c.same_as(&newconfig)) ==> (r matches Ok(
                ConfigureOutcome::Unchanged,
            ) && *final(self) == *old(self)),
            !(old(self).spec_config() matches Some(c) && c.same_as(&newconfig))
                && old(self).spec_recording() is None ==> {
                &&& r matches Ok(ConfigureOutcome::Reconfigured)
                &&& final(self).spec_config() == Some(newconfig)
                &&& final(self).spec_clips() == old(self).spec_clips()
                &&& final(self).spec_recording() is None
            },
            r is Err ==> *final(self) == *old(self),
            !(old(self).spec_config() matches Some(c) && c.same_as(&newconfig))
                && old(self).spec_recording() is Some ==> (r is Ok || r matches Err(
                SessionError::ClockOutOfRange,
            ) || r matches Err(SessionError::ClipAlreadyExists(_))),
            !(old(self).spec_config() matches Some(c) && c.same_as(&newconfig))
                && old(self).spec_recording() is Some && r is Ok ==> {
                let i = old(self).spec_recording()->0;
                let p = final(self).spec_recording()->0;
                let c = final(self).spec_clips()[p as int];
                let rest = final(self).spec_clips().remove(p as int);
                &&& r matches Ok(ConfigureOutcome::Restarted(id)) && id@ == c.spec_id()@
                &&& final(self).spec_config() == Some(newconfig)
                &&& final(self).spec_recording() is Some
                &&& p <= old(self).spec_clips().len()
                &&& final(self).spec_clips().len() == old(self).spec_clips().len() + 1
                &&& rest.len() == old(self).spec_clips().len()
                &&& forall|k: int|
                    0 <= k < rest.len() && k != i ==> rest[k] == old(self).spec_clips()[k]
                &&& rest[i as int].spec_mode() == ClipMode::ReadOnly
                &&& rest[i as int].spec_id() == old(self).spec_clips()[i as int].spec_id()
                &&& rest[i as int].spec_samples() == old(self).spec_clips()[i as int].spec_samples()
                &&& rest[i as int].spec_path() == old(self).spec_clips()[i as int].spec_path()
                &&& c.spec_mode() == ClipMode::Writable
                &&& c.spec_samples().len() == 0
                &&& c.spec_sample_rate() == newconfig.sample_rate
                &&& c.spec_path() == join_spec(old(self).spec_path(), c.spec_id()@) + seq![
                    '.',
                    'w',
                    'a',
                    'v',
                ]
            },
    {
        let same = match &self.audioconfig {
            Some(c) => c.eq(&newconfig),
            None => false,
        };
        if same {
            return Ok(ConfigureOutcome::Unchanged);
        }
        if self.recording.is_none() {
            self.audioconfig = Some(newconfig);
            return Ok(ConfigureOutcome::Reconfigured);
        }
        match Timestamp::now() {
            Some(t) => self.configure_at(newconfig, &t),
            None => Err(SessionError::ClockOutOfRange),
        }
    }
}

} // verus!