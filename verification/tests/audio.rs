use eigenplayer::arith::SampleOp;
use eigenplayer::audio::{AudioBackend, AudioState, BackendError, DecoderThread, DeviceProbe, LoadError};
use eigenplayer::decoder::{DecoderAction, DecoderPhase};
use eigenplayer::sample::{SILENCE, UNITY};

const READY: DeviceProbe = DeviceProbe::Ready { sample_rate: 44100, channels: 2 };

fn arithmetic(op: SampleOp, a: u32, b: u32) -> u32 {
    let (x, y) = (f32::from_bits(a), f32::from_bits(b));
    match op {
        SampleOp::Add => (x + y).to_bits(),
        SampleOp::Sub => (x - y).to_bits(),
        SampleOp::Mul => (x * y).to_bits(),
        SampleOp::Div => (x / y).to_bits(),
        SampleOp::Pow => x.powf(y).to_bits(),
        SampleOp::Sin => x.sin().to_bits(),
        SampleOp::Cos => x.cos().to_bits(),
        SampleOp::Sqrt => x.sqrt().to_bits(),
        SampleOp::FromWhole => (a as f32).to_bits(),
    }
}

fn make(ring_buffer_size: usize, volume: u32, device: DeviceProbe) -> Result<AudioBackend, BackendError> {
    AudioBackend::with_ring_buffer_size(ring_buffer_size, volume, false, Vec::new(), 100, device, &arithmetic)
}

fn backend(ring_buffer_size: usize, volume: f32) -> AudioBackend {
    match make(ring_buffer_size, volume.to_bits(), READY) {
        Ok(backend) => backend,
        Err(_) => panic!("a ready device gives a backend"),
    }
}

#[test]
fn test_audio_backend_creation() {
    if let Ok(backend) = make(88200, 0.5f32.to_bits(), READY) {
        assert!(!backend.is_playing());
    }
}

#[test]
fn test_volume_clamping() {
    if let Ok(mut backend) = make(88200, 0.5f32.to_bits(), READY) {
        backend.set_volume(1.5f32.to_bits());
        let state = backend.state();
        assert_eq!(f32::from_bits(state.volume()), 1.0);
    }
}

#[test]
fn creation_fails_without_a_device_or_its_configuration() {
    assert!(matches!(
        make(4096, UNITY, DeviceProbe::NoDevice),
        Err(BackendError::NoOutputDevice)
    ));
    assert!(matches!(
        make(4096, UNITY, DeviceProbe::NoConfig),
        Err(BackendError::UnsupportedConfig)
    ));
}

#[test]
fn new_backend_is_paused_with_the_configured_values() {
    let backend = backend(4096, 0.5);
    assert!(!backend.is_playing());
    assert!(!backend.state().is_playing());
    assert!(!backend.state().stop_requested());
    assert_eq!(backend.state().volume(), 0.5f32.to_bits());
    assert_eq!(backend.decoder_thread(), DecoderThread::Absent);
    assert_eq!(backend.ring_buffer_size(), 4096);
    assert_eq!(backend.producer_sleep_time(), 100);
    assert_eq!(backend.sample_rate(), 44100);
    assert_eq!(backend.channels(), 2);
    assert!(backend.ring_buffer_size_is_valid());
}

#[test]
fn default_volume_is_limited_to_the_range() {
    assert_eq!(backend(16, 2.0).state().volume(), UNITY);
    assert_eq!(backend(16, -1.0).state().volume(), SILENCE);
    assert_eq!(AudioState::new(3.0f32.to_bits()).volume(), UNITY);
    assert_eq!(AudioState::new(0.125f32.to_bits()).volume(), 0.125f32.to_bits());
}

#[test]
fn set_volume_then_read_gives_the_clamped_value() {
    let mut backend = backend(16, 0.5);
    for (set, read) in [(0.0f32, 0.0f32), (0.3, 0.3), (1.0, 1.0), (1.5, 1.0), (-0.1, 0.0), (f32::INFINITY, 1.0)] {
        backend.set_volume(set.to_bits());
        assert_eq!(f32::from_bits(backend.state().volume()), read);
        assert_eq!(f32::from_bits(backend.state().volume()), set.clamp(0.0, 1.0));
    }
}

#[test]
fn a_volume_that_is_no_number_is_stored_as_silence() {
    let mut backend = make(16, 0x7fc0_0000, READY).ok().unwrap();
    assert_eq!(backend.state().volume(), SILENCE);
    backend.set_volume(0.5f32.to_bits());
    backend.set_volume(0xffc0_0001);
    assert_eq!(backend.state().volume(), SILENCE);
    for word in [f32::NAN.to_bits(), 0x7f80_0001, 0xffff_ffff, (-f32::NAN).to_bits()] {
        backend.set_volume(0.5f32.to_bits());
        backend.set_volume(word);
        let stored = f32::from_bits(backend.state().volume());
        assert!(!stored.is_nan());
        assert!((0.0..=1.0).contains(&stored));
        assert_eq!(AudioState::new(word).volume(), SILENCE);
    }
}

#[test]
fn the_stored_volume_is_always_in_the_range() {
    let mut backend = backend(16, 0.5);
    let mut word: u32 = 0;
    loop {
        backend.set_volume(word);
        let stored = f32::from_bits(backend.state().volume());
        assert!(!stored.is_nan() && (0.0..=1.0).contains(&stored), "word {:#x}", word);
        let made = f32::from_bits(make(16, word, READY).ok().unwrap().state().volume());
        assert!(!made.is_nan() && (0.0..=1.0).contains(&made), "word {:#x}", word);
        let given = f32::from_bits(word);
        if (0.0..=1.0).contains(&given) {
            assert_eq!(stored.to_bits(), word);
            assert_eq!(made.to_bits(), word);
        }
        match word.checked_add(0x0137_9bdf) {
            Some(next) => word = next,
            None => break,
        }
    }
}

#[test]
fn the_backend_is_made_with_its_equalizer() {
    let bands: Vec<[f32; 4]> = vec![[1000.0, 1.0, 6.0, 1.0], [100.0, 0.7, 3.0, 7.0], [8000.0, 0.7, -3.0, 2.0]];
    let words: Vec<[u32; 4]> = bands.iter().map(|b| b.map(f32::to_bits)).collect();
    let backend = AudioBackend::with_ring_buffer_size(64, UNITY, true, words.clone(), 100, READY, &arithmetic)
        .ok()
        .unwrap();
    let expected = eigenplayer::eq::Eq::from_config(words, true, 44100.0f32.to_bits(), &arithmetic);
    assert!(backend.eq().enabled);
    assert_eq!(backend.eq().bands, expected.bands);
    assert_eq!(backend.eq().bands.len(), 3);
    assert_eq!(backend.eq().bands[1], eigenplayer::eq::Biquad::identity());
    assert_ne!(backend.eq().bands[0], eigenplayer::eq::Biquad::identity());
    let plain = backend_without_bands();
    assert!(!plain.eq().enabled);
    assert!(plain.eq().bands.is_empty());
}

fn backend_without_bands() -> AudioBackend {
    backend(16, 0.5)
}

#[test]
fn play_and_pause_switch_the_flag_only() {
    let mut backend = backend(16, 0.5);
    assert!(backend.play().is_ok());
    assert!(backend.is_playing());
    assert_eq!(backend.decoder_thread(), DecoderThread::Absent);
    backend.pause();
    assert!(!backend.is_playing());
    assert_eq!(backend.state().volume(), 0.5f32.to_bits());
}

#[test]
fn pause_before_any_track_is_a_no_op() {
    let mut backend = backend(16, 0.5);
    backend.pause();
    backend.pause();
    assert!(!backend.is_playing());
    assert_eq!(backend.decoder_thread(), DecoderThread::Absent);
    assert!(!backend.state().stop_requested());
}

#[test]
fn stop_on_a_stopped_backend_is_a_no_op() {
    let mut backend = backend(16, 0.5);
    assert!(!backend.stop());
    assert!(!backend.stop());
    assert!(!backend.stop_decoder());
    backend.decoder_joined();
    assert!(!backend.is_playing());
    assert_eq!(backend.decoder_thread(), DecoderThread::Absent);
    assert!(!backend.state().stop_requested());
}

#[test]
fn load_starts_one_session_with_an_empty_ring() {
    let mut backend = backend(4096, 0.5);
    let session = match backend.load_track(Ok(())) {
        Ok(session) => session,
        Err(_) => panic!("an opened track starts a session"),
    };
    assert_eq!(backend.decoder_thread(), DecoderThread::Running);
    assert_eq!(session.ring.capacity(), 4096);
    assert!(session.ring.is_empty());
    assert_eq!(session.decoder.phase(), DecoderPhase::Streaming);
    assert_eq!(session.decoder.backoff_micros(), 100);
    assert!(!backend.is_playing());
}

#[test]
fn failed_load_returns_its_error_and_leaves_the_backend_usable() {
    let mut backend = backend(64, 0.5);
    for error in [LoadError::Open, LoadError::UnrecognizedFormat, LoadError::NoDefaultTrack, LoadError::NoDecoder] {
        match backend.load_track(Err(error)) {
            Ok(_) => panic!("a track that could not be opened starts no session"),
            Err(e) => assert_eq!(e, error),
        }
        assert_eq!(backend.decoder_thread(), DecoderThread::Absent);
        assert!(!backend.state().stop_requested());
    }
    assert!(backend.load_track(Ok(())).is_ok());
    assert_eq!(backend.decoder_thread(), DecoderThread::Running);
}

#[test]
fn stop_signals_the_thread_until_it_is_joined() {
    let mut backend = backend(64, 0.5);
    let mut session = backend.load_track(Ok(())).ok().unwrap();
    assert!(backend.play().is_ok());
    assert!(backend.stop());
    assert!(!backend.is_playing());
    assert_eq!(backend.decoder_thread(), DecoderThread::Stopping);
    assert!(backend.state().stop_requested());
    let stop = backend.state().stop_requested();
    assert_eq!(session.decoder.advance(stop, &mut session.ring), DecoderAction::Exit);
    backend.decoder_joined();
    assert_eq!(backend.decoder_thread(), DecoderThread::Absent);
    assert!(!backend.state().stop_requested());
}

#[test]
fn loading_twice_leaves_exactly_one_decoder() {
    let mut backend = backend(64, 0.5);
    let mut joined = 0;
    let mut started = 0;
    for _ in 0..2 {
        if backend.stop_decoder() {
            assert!(backend.state().stop_requested());
            joined += 1;
            backend.decoder_joined();
        }
        assert_eq!(backend.decoder_thread(), DecoderThread::Absent);
        assert!(backend.load_track(Ok(())).is_ok());
        started += 1;
        assert_eq!(backend.decoder_thread(), DecoderThread::Running);
    }
    assert_eq!(started - joined, 1);
    assert!(!backend.state().stop_requested());
}

#[test]
fn decoder_joined_without_a_stop_changes_nothing() {
    let mut backend = backend(64, 0.5);
    assert!(backend.load_track(Ok(())).is_ok());
    backend.decoder_joined();
    assert_eq!(backend.decoder_thread(), DecoderThread::Running);
}

#[test]
fn ring_buffer_size_validity() {
    assert!(!backend(0, 0.5).ring_buffer_size_is_valid());
    assert!(backend(1, 0.5).ring_buffer_size_is_valid());
    assert!(backend(isize::MAX as usize / 4, 0.5).ring_buffer_size_is_valid());
    assert!(!backend(isize::MAX as usize / 4 + 1, 0.5).ring_buffer_size_is_valid());
    assert!(!backend(usize::MAX, 0.5).ring_buffer_size_is_valid());
}
