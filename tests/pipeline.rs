use hamshark::pipeline::{
    AudioInputBuilderIncomplete, CaptureSource, DeviceConfig, DeviceConfigBuilder, Element,
    PipelineError, PlayStep, SampleBuffer, Sink, State,
};

struct Tail {
    frames: Vec<Vec<i16>>,
    fail: bool,
}

impl Sink for Tail {
    fn process(&mut self, frame: &[i16]) -> Result<(), PipelineError> {
        if self.fail {
            return Err(PipelineError::PlatformError("disk full".to_string()));
        }
        self.frames.push(frame.to_vec());
        Ok(())
    }

    fn cleanup(self) -> Result<(), PipelineError> {
        Ok(())
    }
}

fn config() -> DeviceConfig {
    DeviceConfig {
        host: "Alsa".to_string(),
        device: "mic".to_string(),
        channels: 1,
        sample_rate: 44100,
        buffer_size: None,
    }
}

#[test]
fn stop_before_start_is_a_no_op() {
    let mut src: CaptureSource<Tail> = CaptureSource::new(config());
    assert!(src.stop().is_ok());
    assert_eq!(src.state(), State::Stopped);
    assert!(src.stop().is_ok());
}

#[test]
fn play_needs_a_next_element() {
    let src: CaptureSource<Tail> = CaptureSource::new(config());
    assert!(!src.is_complete());
    assert!(matches!(src.play(), Err(PipelineError::Incomplete(_))));
    assert_eq!(src.state(), State::Stopped);
}

#[test]
fn play_then_stop() {
    let mut src = CaptureSource::new(config());
    src.set_next_element(Tail { frames: vec![], fail: false });
    assert!(src.is_complete());
    assert!(matches!(src.play(), Ok(PlayStep::OpenStream)));
    src.stream_started();
    assert_eq!(src.state(), State::Playing);
    assert!(matches!(src.play(), Ok(PlayStep::AlreadyPlaying)));
    src.stop().unwrap();
    assert_eq!(src.state(), State::Stopped);
    assert!(src.cleanup().is_ok());
}

#[test]
fn capture_source_cannot_pause() {
    let src: CaptureSource<Tail> = CaptureSource::new(config());
    assert!(!src.can_pause());
    assert!(src.is_recorder());
    match src.pause() {
        Err(PipelineError::CannotPause(d)) => assert_eq!(d, "mic"),
        other => panic!("unexpected {:?}", other),
    }
}

#[test]
fn frames_pass_through_the_buffer() {
    let mut src = CaptureSource::new(config());
    src.set_next_element(SampleBuffer::new(Some(Tail { frames: vec![], fail: false })));
    src.deliver(&[1, 2]).unwrap();
    src.deliver(&[3]).unwrap();
    let buf = src.next_element().unwrap();
    assert_eq!(buf.samples(), &[1, 2, 3]);
    assert!(buf.is_complete());
}

#[test]
fn sink_errors_reach_the_caller() {
    let mut buf = SampleBuffer::new(Some(Tail { frames: vec![], fail: true }));
    assert!(matches!(buf.process(&[4, 5]), Err(PipelineError::PlatformError(_))));
    assert_eq!(buf.samples(), &[4, 5]);
}

#[test]
fn deliver_without_next_fails() {
    let mut src: CaptureSource<Tail> = CaptureSource::new(config());
    assert!(matches!(src.deliver(&[1]), Err(PipelineError::Incomplete(_))));
}

#[test]
fn builder_needs_every_part() {
    let mut b = DeviceConfigBuilder {
        host: Some("Alsa".to_string()),
        device: None,
        channels: Some(1),
        sample_rate: Some(48000),
        buffer_size: Some(128),
    };
    assert_eq!(b.build().unwrap_err(), AudioInputBuilderIncomplete);
    b.device = Some("mic".to_string());
    let c = b.build().unwrap();
    assert_eq!(c.device, "mic");
    assert_eq!(c.sample_rate, 48000);
    assert_eq!(c.buffer_size, Some(128));
    assert!(c == c.clone());
}
