use pw_scope::bridge::EventBridge;
use pw_scope::capture::{CaptureSession, PwEvent, SessionState};
use pw_scope::deinterleave::{deinterleave, read_le_word};
use pw_scope::format::AudioInfo;
use pw_scope::FFT_SIZE;

fn interleaved(frames: usize, channels: usize) -> (Vec<u8>, Vec<Vec<f32>>) {
    let mut bytes = vec![];
    let mut rows = vec![vec![]; channels];
    for f in 0..frames {
        for c in 0..channels {
            let x = f as f32 * 0.5 + c as f32 * 1000.0;
            bytes.extend_from_slice(&x.to_le_bytes());
            rows[c].push(x);
        }
    }
    (bytes, rows)
}

fn streaming(rate: u32, channels: u32) -> CaptureSession {
    let mut s = CaptureSession::new();
    assert!(s.start());
    s.connected();
    let ev = s.param_changed(true, Some(AudioInfo::new(rate, channels)));
    assert_eq!(ev.len(), 1);
    s
}

fn as_floats(words: &[u32]) -> Vec<f32> {
    words.iter().map(|w| f32::from_bits(*w)).collect()
}

#[test]
fn audio_info_accessors() {
    let f = AudioInfo::new(44100, 6);
    assert_eq!(f.rate(), 44100);
    assert_eq!(f.channels(), 6);
}

#[test]
fn read_le_word_is_little_endian() {
    assert_eq!(read_le_word(&[0x78, 0x56, 0x34, 0x12, 0xff], 0), 0x1234_5678);
    assert_eq!(read_le_word(&[0x00, 0x00, 0x80, 0x3f], 0), 1.0f32.to_bits());
    assert_eq!(read_le_word(&[9, 0xff, 0xff, 0xff, 0xff], 1), u32::MAX);
}

#[test]
fn deinterleave_splits_channels() {
    let bytes: Vec<u8> = (0u8..24).collect();
    let m = deinterleave(&bytes, 24, 2);
    assert_eq!(m.channel(), 2);
    assert_eq!(m.data()[0], vec![0x03020100, 0x0b0a0908, 0x13121110]);
    assert_eq!(m.data()[1], vec![0x07060504, 0x0f0e0d0c, 0x17161514]);
}

#[test]
fn deinterleave_drops_partial_frame() {
    let bytes: Vec<u8> = (0u8..22).collect();
    let m = deinterleave(&bytes, 22, 2);
    assert_eq!(m.frames(), 2);
    let m3 = deinterleave(&bytes, 12, 3);
    assert_eq!(m3.frames(), 1);
    assert_eq!(m3.data()[2], vec![0x0b0a0908]);
}

#[test]
fn format_change_comes_before_any_batch() {
    let mut s = CaptureSession::new();
    s.start();
    s.connected();
    let (bytes, _) = interleaved(160, 2);
    assert!(s.process(Some(&bytes), bytes.len()).is_none());
    let ev = s.param_changed(true, Some(AudioInfo::new(48000, 2)));
    assert_eq!(ev.len(), 1);
    match &ev[0] {
        PwEvent::FormatChange(f) => {
            assert_eq!(f.rate(), 48000);
            assert_eq!(f.channels(), 2);
        }
        _ => panic!("expected a format change"),
    }
    assert_eq!(s.state(), SessionState::Streaming);
    let out = s.process(Some(&bytes), bytes.len()).unwrap();
    assert!(out.iter().all(|e| matches!(e, PwEvent::DataNew(_))));
}

#[test]
fn non_raw_proposal_is_ignored() {
    let mut s = CaptureSession::new();
    s.start();
    s.connected();
    assert!(s.param_changed(false, Some(AudioInfo::new(48000, 2))).is_empty());
    assert_eq!(s.state(), SessionState::Negotiating);
    assert_eq!(s.format().channels(), 0);
}

#[test]
fn unreadable_raw_proposal_fails_once() {
    let mut s = CaptureSession::new();
    s.start();
    let ev = s.param_changed(true, None);
    assert_eq!(ev.len(), 1);
    assert!(matches!(ev[0], PwEvent::PwErr));
    assert_eq!(s.state(), SessionState::Failed);
    assert!(s.fail().is_empty());
    assert!(s.param_changed(true, Some(AudioInfo::new(48000, 2))).is_empty());
}

#[test]
fn later_format_change_stays_streaming() {
    let mut s = streaming(48000, 2);
    let ev = s.param_changed(true, Some(AudioInfo::new(44100, 1)));
    assert_eq!(ev.len(), 1);
    assert_eq!(s.state(), SessionState::Streaming);
    assert_eq!(s.format().rate(), 44100);
}

#[test]
fn one_callback_of_160_frames_gives_two_batches() {
    let mut s = streaming(48000, 2);
    let (bytes, rows) = interleaved(160, 2);
    let out = s.process(Some(&bytes), bytes.len()).unwrap();
    assert_eq!(out.len(), 2);
    for (k, e) in out.iter().enumerate() {
        match e {
            PwEvent::DataNew(m) => {
                assert_eq!(m.channel(), 2);
                for c in 0..2 {
                    assert_eq!(m.data()[c].len(), 80);
                    assert_eq!(as_floats(&m.data()[c]), rows[c][k * 80..(k + 1) * 80].to_vec());
                }
            }
            _ => panic!("expected a data batch"),
        }
    }
}

#[test]
fn one_callback_of_95_frames_gives_one_batch() {
    let mut s = streaming(48000, 2);
    let (bytes, rows) = interleaved(95, 2);
    let out = s.process(Some(&bytes), bytes.len()).unwrap();
    assert_eq!(out.len(), 1);
    match &out[0] {
        PwEvent::DataNew(m) => {
            assert_eq!(m.frames(), 80);
            assert_eq!(as_floats(&m.data()[1]), rows[1][..80].to_vec());
        }
        _ => panic!("expected a data batch"),
    }
}

#[test]
fn reported_size_limits_bytes_read() {
    let mut s = streaming(48000, 1);
    let (bytes, _) = interleaved(200, 1);
    let out = s.process(Some(&bytes), 80 * 4).unwrap();
    assert_eq!(out.len(), 1);
    let out = s.process(Some(&bytes), 79 * 4).unwrap();
    assert_eq!(out.len(), 0);
    let out = s.process(Some(&bytes), 10_000).unwrap();
    assert_eq!(out.len(), 2);
}

#[test]
fn missing_buffer_is_skipped() {
    let mut s = streaming(48000, 2);
    let before = s.spectrum_window();
    assert!(s.process(None, 0).is_none());
    assert_eq!(s.spectrum_window(), before);
}

#[test]
fn zero_channel_format_processes_nothing() {
    let mut s = streaming(48000, 0);
    let (bytes, _) = interleaved(160, 2);
    assert!(s.process(Some(&bytes), bytes.len()).is_none());
}

#[test]
fn spectrum_window_starts_silent_and_slides_channel_zero() {
    let mut s = streaming(48000, 2);
    let w = s.spectrum_window();
    assert_eq!(w.len(), FFT_SIZE);
    assert!(w.iter().all(|x| *x == 0));
    let (bytes, rows) = interleaved(95, 2);
    s.process(Some(&bytes), bytes.len()).unwrap();
    let w = s.spectrum_window();
    assert_eq!(w.len(), FFT_SIZE);
    assert!(w[..FFT_SIZE - 95].iter().all(|x| *x == 0));
    assert_eq!(as_floats(&w[FFT_SIZE - 95..]), rows[0]);
}

#[test]
fn connection_failure_reaches_consumer_once() {
    let mut s = CaptureSession::new();
    s.start();
    assert_eq!(s.state(), SessionState::Connecting);
    let mut queue: Vec<Option<PwEvent<u32>>> = s.fail().into_iter().map(Some).collect();
    queue.push(None);
    let mut bridge = EventBridge::new();
    let mut seen = vec![];
    for r in queue {
        if let Some(e) = bridge.relay(r) {
            seen.push(e);
        }
    }
    assert_eq!(seen.len(), 1);
    assert!(matches!(seen[0], PwEvent::PwErr));
    assert!(bridge.is_finished());
    assert!(bridge.relay(Some(PwEvent::<u32>::PwErr)).is_none());
}

#[test]
fn closed_queue_is_reported_as_failure() {
    let mut bridge = EventBridge::new();
    let e = bridge.relay(Some(PwEvent::<u32>::FormatChange(AudioInfo::new(1, 1))));
    assert!(matches!(e, Some(PwEvent::FormatChange(_))));
    assert!(!bridge.is_finished());
    assert!(matches!(bridge.relay::<u32>(None), Some(PwEvent::PwErr)));
    assert!(bridge.relay::<u32>(None).is_none());
}

#[test]
fn start_and_stop_transitions() {
    let mut s = CaptureSession::new();
    assert_eq!(s.state(), SessionState::Disconnected);
    s.connected();
    assert_eq!(s.state(), SessionState::Disconnected);
    assert!(s.start());
    assert!(!s.start());
    s.stop();
    assert_eq!(s.state(), SessionState::Disconnected);
    s.start();
    s.fail();
    s.stop();
    assert_eq!(s.state(), SessionState::Failed);
}
