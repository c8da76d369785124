use hamshark::clip::{ClipId, Timestamp, WavClip};
use hamshark::pipeline::DeviceConfig;
use hamshark::session::{session_path, ConfigureOutcome, Session, SessionError};

fn config(rate: u32) -> DeviceConfig {
    DeviceConfig {
        host: "Alsa".to_string(),
        device: "default".to_string(),
        channels: 1,
        sample_rate: rate,
        buffer_size: Some(128),
    }
}

fn at(second: u32) -> Timestamp {
    Timestamp { year: 2025, month: 1, day: 2, hour: 3, minute: 4, second, nanosecond: 5 }
}

fn configured() -> Session {
    let mut s = Session::new("/rec/2025-01-02_03-04-00");
    assert!(matches!(s.configure_at(config(44100), &at(0)), Ok(ConfigureOutcome::Reconfigured)));
    s
}

#[test]
fn second_record_fails_while_recording() {
    let mut s = configured();
    let id = s.record_new_clip_at(&at(1)).unwrap();
    assert_eq!(id.as_str(), "2025-01-02_03-04-01.000000005");
    assert!(s.is_recording());
    assert!(matches!(s.record_new_clip_at(&at(2)), Err(SessionError::AlreadyRecording)));
    assert!(matches!(s.record_new_clip(), Err(SessionError::AlreadyRecording)));
    assert_eq!(s.clips().len(), 1);
}

#[test]
fn record_needs_a_configuration() {
    let mut s = Session::new("/rec/x");
    assert!(matches!(s.record_new_clip_at(&at(1)), Err(SessionError::NoAudioConfiguration)));
    assert!(matches!(s.record_new_clip(), Err(SessionError::NoAudioConfiguration)));
    assert!(!s.is_recording());
    assert_eq!(s.clips().len(), 0);
}

#[test]
fn record_with_a_taken_id_fails() {
    let mut s = configured();
    s.record_new_clip_at(&at(1)).unwrap();
    assert!(s.stop_recording().is_some());
    match s.record_new_clip_at(&at(1)) {
        Err(SessionError::ClipAlreadyExists(id)) => assert_eq!(id.as_str(), "2025-01-02_03-04-01.000000005"),
        other => panic!("unexpected {:?}", other),
    }
    assert!(!s.is_recording());
    assert_eq!(s.clips().len(), 1);
}

#[test]
fn new_clip_lives_in_the_session_directory() {
    let mut s = configured();
    let id = s.record_new_clip_at(&at(1)).unwrap();
    let c = s.clip(&id).unwrap();
    assert_eq!(c.path(), "/rec/2025-01-02_03-04-00/2025-01-02_03-04-01.000000005.wav");
    assert_eq!(s.clip_id_to_abs_path(&id), c.path());
    assert!(c.is_writable());
    assert_eq!(c.sample_rate(), 44100);
}

#[test]
fn recording_from_the_clock() {
    let mut s = configured();
    let id = s.record_new_clip().unwrap();
    assert!(s.is_recording());
    assert_eq!(s.clip_ids()[0], id);
    assert_eq!(id.as_str().len(), 29);
}

#[test]
fn samples_go_to_the_recording_clip() {
    let mut s = configured();
    assert!(matches!(s.record_samples(&[1]), Err(SessionError::NotRecording)));
    let id = s.record_new_clip_at(&at(1)).unwrap();
    s.record_samples(&[1, 2]).unwrap();
    s.record_samples(&[3]).unwrap();
    assert_eq!(s.clip(&id).unwrap().samples(), &[1, 2, 3]);
}

#[test]
fn stop_makes_the_clip_read_only() {
    let mut s = configured();
    assert!(s.stop_recording().is_none());
    let id = s.record_new_clip_at(&at(1)).unwrap();
    s.record_samples(&[9]).unwrap();
    assert_eq!(s.stop_recording().unwrap(), id);
    assert!(!s.is_recording());
    let c = s.clip(&id).unwrap();
    assert!(!c.is_writable());
    assert_eq!(c.samples(), &[9]);
    assert!(s.stop_recording().is_none());
}

#[test]
fn abandon_drops_the_new_clip() {
    let mut s = configured();
    let id = s.record_new_clip_at(&at(1)).unwrap();
    assert_eq!(s.abandon_recording().unwrap(), id);
    assert!(!s.is_recording());
    assert_eq!(s.clips().len(), 0);
    assert!(matches!(s.clip(&id), Err(SessionError::NoSuchClip(_))));
}

#[test]
fn configure_same_config_changes_nothing() {
    let mut s = configured();
    s.record_new_clip_at(&at(1)).unwrap();
    assert!(matches!(s.configure_at(config(44100), &at(2)), Ok(ConfigureOutcome::Unchanged)));
    assert!(matches!(s.configure(config(44100)), Ok(ConfigureOutcome::Unchanged)));
    assert_eq!(s.clips().len(), 1);
    assert!(s.is_recording());
}

#[test]
fn configure_while_recording_restarts() {
    let mut s = configured();
    let first = s.record_new_clip_at(&at(1)).unwrap();
    match s.configure_at(config(48000), &at(2)) {
        Ok(ConfigureOutcome::Restarted(id)) => {
            assert_eq!(id.as_str(), "2025-01-02_03-04-02.000000005");
            assert!(s.clip(&id).unwrap().is_writable());
            assert_eq!(s.clip(&id).unwrap().sample_rate(), 48000);
        }
        other => panic!("unexpected {:?}", other),
    }
    assert!(!s.clip(&first).unwrap().is_writable());
    assert_eq!(s.configuration().unwrap().sample_rate, 48000);
    assert_eq!(s.clips().len(), 2);
}

#[test]
fn configure_while_recording_with_taken_id_changes_nothing() {
    let mut s = configured();
    s.record_new_clip_at(&at(1)).unwrap();
    assert!(matches!(s.configure_at(config(48000), &at(1)), Err(SessionError::ClipAlreadyExists(_))));
    assert!(s.is_recording());
    assert_eq!(s.configuration().unwrap().sample_rate, 44100);
    assert_eq!(s.clips().len(), 1);
}

#[test]
fn configure_while_idle_only_swaps() {
    let mut s = configured();
    assert!(matches!(s.configure(config(22050)), Ok(ConfigureOutcome::Reconfigured)));
    assert!(!s.is_recording());
    assert!(s.is_configured());
    assert_eq!(s.configuration().unwrap().sample_rate, 22050);
}

fn scan(s: &mut Session, entries: &Vec<String>) -> usize {
    let pending = s.pending_clip_files(entries);
    for p in &pending {
        let clip = WavClip::from_decoded(p, 8000, vec![1, 2, 3]).unwrap();
        s.track_clip(clip).unwrap();
    }
    pending.len()
}

#[test]
fn rescan_twice_adds_nothing_the_second_time() {
    let mut s = Session::new("/rec/x");
    let entries: Vec<String> = ["/rec/x/b.wav", "/rec/x/a.wav", "/rec/x/a.txt", "/rec/x/..", "/rec/x/c.wav"]
        .iter()
        .map(|e| e.to_string())
        .collect();
    assert_eq!(s.pending_clip_files(&entries), vec!["/rec/x/b.wav", "/rec/x/a.wav", "/rec/x/c.wav"]);
    assert_eq!(scan(&mut s, &entries), 3);
    assert_eq!(scan(&mut s, &entries), 0);
    let ids: Vec<String> = s.clip_ids().iter().map(|i| i.to_string()).collect();
    assert_eq!(ids, vec!["a", "b", "c"]);
}

#[test]
fn clip_ids_are_listed_in_id_order() {
    let mut s = configured();
    s.track_clip(WavClip::from_decoded("/rec/x/b.wav", 8000, vec![]).unwrap()).unwrap();
    s.track_clip(WavClip::from_decoded("/rec/x/a.wav", 8000, vec![]).unwrap()).unwrap();
    let id = s.record_new_clip_at(&at(1)).unwrap();
    s.track_clip(WavClip::from_decoded("/rec/x/c.wav", 8000, vec![]).unwrap()).unwrap();
    s.track_clip(WavClip::from_decoded("/rec/x/0.wav", 8000, vec![]).unwrap()).unwrap();
    let ids: Vec<String> = s.clip_ids().iter().map(|i| i.to_string()).collect();
    assert_eq!(ids, vec!["0", "2025-01-02_03-04-01.000000005", "a", "b", "c"]);
    s.record_samples(&[4]).unwrap();
    assert_eq!(s.clip(&id).unwrap().samples(), &[4]);
    assert_eq!(s.stop_recording().unwrap(), id);
}

#[test]
fn rescan_skips_the_recording_clip() {
    let mut s = configured();
    let id = s.record_new_clip_at(&at(1)).unwrap();
    let entries = vec![s.clip_id_to_abs_path(&id)];
    assert!(s.pending_clip_files(&entries).is_empty());
}

#[test]
fn tracking_a_known_id_fails() {
    let mut s = Session::new("/rec/x");
    s.track_clip(WavClip::from_decoded("/rec/x/a.wav", 8000, vec![]).unwrap()).unwrap();
    let again = WavClip::from_decoded("/other/a.wav", 8000, vec![5]).unwrap();
    assert!(matches!(s.track_clip(again), Err(SessionError::ClipAlreadyExists(_))));
    assert_eq!(s.clips().len(), 1);
    assert_eq!(s.clips()[0].sample_count(), 0);
}

#[test]
fn missing_clip_is_reported() {
    let s = Session::new("/rec/x");
    let id = ClipId::from_path_ref("nope.wav").unwrap();
    match s.clip(&id) {
        Err(SessionError::NoSuchClip(i)) => assert_eq!(i.as_str(), "nope"),
        other => panic!("unexpected {:?}", other),
    }
}

#[test]
fn session_directory_name() {
    let t = Timestamp { year: 2025, month: 11, day: 2, hour: 13, minute: 4, second: 5, nanosecond: 6 };
    assert_eq!(session_path("/home/u/Hamshark", &t), "/home/u/Hamshark/2025-11-02_13-04-05");
    assert_eq!(Session::new("/a").path(), "/a");
}
