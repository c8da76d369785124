//! The capture pipeline: a source bound to one device configuration that
//! hands each captured frame to the sink it owns, and the sinks that buffer
//! or forward frames.

use vstd::prelude::*;
use vstd::string::StringExecFns;

verus! {

#[derive(Clone, Copy, Debug, PartialEq, Eq, Structural)]
pub enum State {
    Stopped,
    Paused,
    Playing,
}

#[derive(Debug)]
pub enum PipelineError {
    /// The source cannot pause; the text names it.
    CannotPause(String),
    /// The source has no next element; the text names it.
    Incomplete(String),
    /// The platform reported an error; the text describes it.
    PlatformError(String),
}

/// A capture device and the stream configuration to open it with.
#[derive(Debug)]
pub struct DeviceConfig {
    pub host: String,
    pub device: String,
    pub channels: u16,
    pub sample_rate: u32,
    /// Frames per callback, where a fixed size is asked for.
    pub buffer_size: Option<u32>,
}

impl DeviceConfig {
    pub open spec fn same_as(&self, o: &DeviceConfig) -> bool {
        &&& self.host@ == o.host@
        &&& self.device@ == o.device@
        &&& self.channels == o.channels
        &&& self.sample_rate == o.sample_rate
        &&& self.buffer_size == o.buffer_size
    }
}

impl PartialEq for DeviceConfig {
    fn eq(&self, o: &DeviceConfig) -> (r: bool) {
        self.host == o.host && self.device == o.device && self.channels == o.channels
            && self.sample_rate == o.sample_rate && self.buffer_size == o.buffer_size
    }
}

impl vstd::std_specs::cmp::PartialEqSpecImpl for DeviceConfig {
    open spec fn obeys_eq_spec() -> bool {
        true
    }

    open spec fn eq_spec(&self, o: &DeviceConfig) -> bool {
        self.same_as(o)
    }
}

impl Clone for DeviceConfig {
    fn clone(&self) -> (r: DeviceConfig)
        ensures
            r.same_as(self),
    {
        DeviceConfig {
            host: self.host.clone(),
            device: self.device.clone(),
            channels: self.channels,
            sample_rate: self.sample_rate,
            buffer_size: self.buffer_size,
        }
    }
}

/// The builder lacked a part of the device configuration.
#[derive(Clone, Copy, Debug, PartialEq, Eq, Structural)]
pub struct AudioInputBuilderIncomplete;

/// Collects the parts of a device configuration.
#[derive(Debug)]
pub struct DeviceConfigBuilder {
    pub host: Option<String>,
    pub device: Option<String>,
    pub channels: Option<u16>,
    pub sample_rate: Option<u32>,
    pub buffer_size: Option<u32>,
}

impl DeviceConfigBuilder {
    /// The configuration, once host, device, channel count and sample rate
    /// are all set.
    pub fn build(&self) -> (r: Result<DeviceConfig, AudioInputBuilderIncomplete>)
        ensures
            r is Ok <==> (self.host is Some && self.device is Some && self.channels is Some
                && self.sample_rate is Some),
            r matches Ok(c) ==> {
                &&& c.host@ == self.host->0@
                &&& c.device@ == self.device->0@
                &&& c.channels == self.channels->0
                &&& c.sample_rate == self.sample_rate->0
                &&& c.buffer_size == self.buffer_size
            },
    {
        match (&self.host, &self.device, self.channels, self.sample_rate) {
            (Some(h), Some(d), Some(c), Some(s)) => Ok(
                DeviceConfig {
                    host: h.clone(),
                    device: d.clone(),
                    channels: c,
                    sample_rate: s,
                    buffer_size: self.buffer_size,
                },
            ),
            _ => Err(AudioInputBuilderIncomplete),
        }
    }
}

/// A pipeline element that can tell whether it is linked to all it needs.
pub trait Element {
    fn is_complete(&self) -> bool;
}

/// An element that consumes frames: buffers them, encodes them or forwards
/// them further.
pub trait Sink: Sized {
    /// Consumes one frame; an error from further down the chain is returned.
    fn process(&mut self, frame: &[i16]) -> Result<(), PipelineError>;

    /// Flushes and finalizes; the last call on the sink.
    fn cleanup(self) -> Result<(), PipelineError>;
}

/// A sink that keeps every frame in memory, in order, and forwards it to its
/// own next sink, if it has one.
pub struct SampleBuffer<N: Sink> {
    samples: Vec<i16>,
    next: Option<N>,
}

impl<N: Sink> SampleBuffer<N> {
    pub closed spec fn spec_samples(&self) -> Seq<i16> {
        self.samples@
    }

    pub closed spec fn spec_has_next(&self) -> bool {
        self.next is Some
    }

    pub closed spec fn spec_next(&self) -> Option<N> {
        self.next
    }

    pub fn new(next: Option<N>) -> (r: SampleBuffer<N>)
        ensures
            r.spec_samples().len() == 0,
            r.spec_has_next() == next is Some,
    {
        SampleBuffer { samples: Vec::new(), next }
    }

    pub fn samples(&self) -> (r: &[i16])
        ensures
            r@ == self.spec_samples(),
    {
        self.samples.as_slice()
    }

    /// Appends the frame to the buffer, then hands it to the next sink and
    /// returns what that sink returns (success without one).
    pub fn buffer_frame(&mut self, frame: &[i16]) -> (r: Result<(), PipelineError>)
        ensures
            final(self).spec_samples() == old(self).spec_samples() + frame@,
            final(self).spec_has_next() == old(self).spec_has_next(),
            !old(self).spec_has_next() ==> r is Ok,
    {
        let mut i: usize = 0;
        while i < frame.len()
            invariant
                i <= frame@.len(),
                self.samples@ == old(self).spec_samples() + frame@.subrange(0, i as int),
                self.next == old(self).next,
            decreases frame@.len() - i,
        {
            self.samples.push(frame[i]);
            assert(frame@.subrange(0, i + 1) =~= frame@.subrange(0, i as int).push(frame@[i as int]));
            i = i + 1;
        }
        assert(frame@.subrange(0, i as int) =~= frame@);
        match self.next.take() {
            Some(mut n) => {
                let r = n.process(frame);
                self.next = Some(n);
                r
            },
            None => Ok(()),
        }
    }
}

impl<N: Sink> Element for SampleBuffer<N> {
    /// A sink is complete on its own.
    fn is_complete(&self) -> bool {
        true
    }
}

impl<N: Sink> Sink for SampleBuffer<N> {
    fn process(&mut self, frame: &[i16]) -> Result<(), PipelineError> {
        self.buffer_frame(frame)
    }

    fn cleanup(self) -> Result<(), PipelineError> {
        match self.next {
            Some(n) => n.cleanup(),
            None => Ok(()),
        }
    }
}

impl<S: Sink> Element for CaptureSource<S> {
    /// A source is complete once it has a next element.
    fn is_complete(&self) -> bool {
        self.has_next()
    }
}

/// What the caller of `play` does next.
#[derive(Clone, Copy, Debug, PartialEq, Eq, Structural)]
pub enum PlayStep {
    /// The stream already runs; nothing to do.
    AlreadyPlaying,
    /// Open and start the device stream, then report it with `stream_started`.
    OpenStream,
}

/// A source bound to one capture device. It owns its next sink. Once playing
/// it cannot pause: stopping is the only way out.
pub struct CaptureSource<S: Sink> {
    config: DeviceConfig,
    playing: bool,
    next: Option<S>,
}

impl<S: Sink> CaptureSource<S> {
    pub closed spec fn spec_config(&self) -> DeviceConfig {
        self.config
    }

    pub closed spec fn spec_playing(&self) -> bool {
        self.playing
    }

    pub closed spec fn spec_has_next(&self) -> bool {
        self.next is Some
    }

    pub closed spec fn spec_next(&self) -> Option<S> {
        self.next
    }

    /// A stopped source for `config`, with no next element.
    pub fn new(config: DeviceConfig) -> (r: CaptureSource<S>)
        ensures
            r.spec_config() == config,
            !r.spec_playing(),
            !r.spec_has_next(),
    {
        CaptureSource { config, playing: false, next: None }
    }

    pub fn config(&self) -> (r: &DeviceConfig)
        ensures
            *r == self.spec_config(),
    {
        &self.config
    }

    pub fn set_next_element(&mut self, element: S)
        ensures
            final(self).spec_has_next(),
            final(self).spec_next() == Some(element),
            final(self).spec_playing() == old(self).spec_playing(),
            final(self).spec_config() == old(self).spec_config(),
    {
        self.next = Some(element);
    }

    pub fn next_element(&self) -> (r: Option<&S>)
        ensures
            r is Some == self.spec_has_next(),
            r matches Some(n) ==> *n == self.spec_next()->0,
    {
        match &self.next {
            Some(n) => Some(n),
            None => None,
        }
    }

    /// The source has somewhere to send its frames.
    pub fn has_next(&self) -> (r: bool)
        ensures
            r == self.spec_has_next(),
    {
        self.next.is_some()
    }

    /// Asks to start capturing. Fails with `Incomplete` when no next element
    /// is attached; otherwise says whether a stream has to be opened. Nothing
    /// changes until `stream_started`.
    pub fn play(&self) -> (r: Result<PlayStep, PipelineError>)
        ensures
            self.spec_playing() ==> r == Ok::<PlayStep, PipelineError>(PlayStep::AlreadyPlaying),
            !self.spec_playing() && self.spec_has_next() ==> r == Ok::<PlayStep, PipelineError>(
                PlayStep::OpenStream,
            ),
            !self.spec_playing() && !self.spec_has_next() ==> r matches Err(
                PipelineError::Incomplete(_),
            ),
    {
        if self.playing {
            return Ok(PlayStep::AlreadyPlaying);
        }
        if !self.has_next() {
            proof { reveal_strlit("CaptureSource"); }
            return Err(PipelineError::Incomplete(String::from_str("CaptureSource")));
        }
        Ok(PlayStep::OpenStream)
    }

    /// Records that the device stream was opened and started.
    pub fn stream_started(&mut self)
        requires
            old(self).spec_has_next(),
        ensures
            final(self).spec_playing(),
            final(self).spec_has_next(),
            final(self).spec_config() == old(self).spec_config(),
    {
        self.playing = true;
    }

    /// Hands a captured frame to the next element and returns what it
    /// returns; fails with `Incomplete` when there is none.
    pub fn deliver(&mut self, frame: &[i16]) -> (r: Result<(), PipelineError>)
        ensures
            final(self).spec_playing() == old(self).spec_playing(),
            final(self).spec_has_next() == old(self).spec_has_next(),
            final(self).spec_config() == old(self).spec_config(),
            !old(self).spec_has_next() ==> r matches Err(PipelineError::Incomplete(_)),
    {
        match self.next.take() {
            Some(mut n) => {
                let r = n.process(frame);
                self.next = Some(n);
                r
            },
            None => {
                proof { reveal_strlit("CaptureSource"); }
                Err(PipelineError::Incomplete(String::from_str("CaptureSource")))
            },
        }
    }

    /// A capture source cannot pause.
    pub fn pause(&self) -> (r: Result<(), PipelineError>)
        ensures
            r matches Err(PipelineError::CannotPause(d)) && d@ == self.spec_config().device@,
    {
        Err(PipelineError::CannotPause(self.config.device.clone()))
    }

    pub fn can_pause(&self) -> (r: bool)
        ensures
            !r,
    {
        false
    }

    pub fn is_recorder(&self) -> (r: bool)
        ensures
            r,
    {
        true
    }

    pub fn state(&self) -> (r: State)
        ensures
            r == if self.spec_playing() { State::Playing } else { State::Stopped },
    {
        if self.playing {
            State::Playing
        } else {
            State::Stopped
        }
    }

    /// Stops capturing. Always succeeds; on a source that is not playing it
    /// changes nothing.
    pub fn stop(&mut self) -> (r: Result<(), PipelineError>)
        ensures
            r is Ok,
            !final(self).spec_playing(),
            final(self).spec_has_next() == old(self).spec_has_next(),
            final(self).spec_config() == old(self).spec_config(),
            !old(self).spec_playing() ==> *final(self) == *old(self),
    {
        self.playing = false;
        Ok(())
    }

    /// Tears the pipeline down: finalizes the next element, if any.
    pub fn cleanup(self) -> (r: Result<(), PipelineError>)
        ensures
            !self.spec_has_next() ==> r is Ok,
    {
        match self.next {
            Some(n) => n.cleanup(),
            None => Ok(()),
        }
    }
}

} // verus!
