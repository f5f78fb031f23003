use eigenplayer::arith::SampleOp;
use eigenplayer::audio::{AudioBackend, DecoderThread, DeviceProbe};
use eigenplayer::decoder::{DecoderAction, DecoderPhase, PacketOutcome};
use eigenplayer::output::render;
use eigenplayer::sample::SILENCE;

fn arithmetic(op: SampleOp, a: u32, b: u32) -> u32 {
    let (x, y) = (f32::from_bits(a), f32::from_bits(b));
    match op {
        SampleOp::Add => (x + y).to_bits(),
        SampleOp::Sub => (x - y).to_bits(),
        SampleOp::Mul => (x * y).to_bits(),
        SampleOp::Div => (x / y).to_bits(),
        SampleOp::Pow => x.powf(y).to_bits(),
        SampleOp::Sin => x.sin().to_bits(),
        SampleOp::Cos => x.cos().to_bits(),
        SampleOp::Sqrt => x.sqrt().to_bits(),
        SampleOp::FromWhole => (a as f32).to_bits(),
    }
}

/// Sample `n` of a track of a 440 Hz tone at 44.1 kHz, at three quarters of
/// full scale.
fn tone(n: usize) -> f32 {
    0.75 * (2.0 * std::f32::consts::PI * 440.0 * n as f32 / 44100.0).sin()
}

struct Track {
    total: usize,
    sent: usize,
    block: usize,
}

impl Track {
    fn next_packet(&mut self) -> PacketOutcome {
        if self.sent >= self.total {
            return PacketOutcome::EndOfStream;
        }
        let end = (self.sent + self.block).min(self.total);
        let block = (self.sent..end).map(|n| tone(n).to_bits()).collect();
        self.sent = end;
        PacketOutcome::Decoded(block)
    }
}

#[test]
fn a_loaded_track_plays_to_its_end_and_then_gives_silence() {
    let probe = DeviceProbe::Ready { sample_rate: 44100, channels: 1 };
    let mut backend = AudioBackend::with_ring_buffer_size(4096, 1.0f32.to_bits(), false, Vec::new(), 100, probe, &arithmetic)
        .ok()
        .unwrap();
    let mut session = backend.load_track(Ok(())).ok().unwrap();
    assert!(backend.play().is_ok());
    let mut track = Track { total: 44100, sent: 0, block: 1152 };
    let mut out = vec![0u32; 512];
    let mut heard = 0usize;
    let mut callbacks = 0usize;

    while heard < track.total {
        let mut steps = 0;
        loop {
            steps += 1;
            assert!(steps < 100);
            let stop = backend.state().stop_requested();
            match session.decoder.advance(stop, &mut session.ring) {
                DecoderAction::NextPacket => {
                    let packet = track.next_packet();
                    session.decoder.deliver(packet);
                }
                DecoderAction::Backoff(micros) => {
                    assert_eq!(micros, 100);
                    assert!(session.ring.is_full());
                    break;
                }
                DecoderAction::Exit => break,
            }
        }
        assert!(session.ring.len() <= 4096);
        let waiting = session.ring.len();
        assert!(backend.render(&mut session.ring, &mut out, &arithmetic));
        callbacks += 1;
        for (i, word) in out.iter().enumerate() {
            if i < waiting {
                assert_eq!(f32::from_bits(*word), tone(heard + i));
            } else {
                assert_eq!(*word, SILENCE);
            }
        }
        heard += waiting.min(out.len());
    }

    assert_eq!(heard, 44100);
    assert!(callbacks >= 44100 / 512);
    assert_eq!(session.decoder.advance(false, &mut session.ring), DecoderAction::Exit);
    assert_eq!(session.decoder.phase(), DecoderPhase::EndOfStream);
    assert_eq!(backend.decoder_thread(), DecoderThread::Running);
    for _ in 0..8 {
        assert!(backend.render(&mut session.ring, &mut out, &arithmetic));
        assert!(out.iter().all(|word| *word == SILENCE));
    }
}

#[test]
fn pause_keeps_the_ring_filling_and_play_resumes_at_once() {
    let probe = DeviceProbe::Ready { sample_rate: 44100, channels: 1 };
    let mut backend = AudioBackend::with_ring_buffer_size(64, 1.0f32.to_bits(), false, Vec::new(), 100, probe, &arithmetic)
        .ok()
        .unwrap();
    let mut session = backend.load_track(Ok(())).ok().unwrap();
    let mut eq = eigenplayer::eq::Eq::new(Vec::new(), false);
    let mut track = Track { total: 1000, sent: 0, block: 48 };
    let mut out = vec![7u32; 16];
    let mut level = 0usize;

    for _ in 0..20 {
        if let DecoderAction::NextPacket = session.decoder.advance(false, &mut session.ring) {
            let packet = track.next_packet();
            session.decoder.deliver(packet);
        }
        assert!(!render(backend.state(), &mut eq, &mut session.ring, &mut out, &arithmetic));
        assert!(out.iter().all(|word| *word == SILENCE));
        assert!(session.ring.len() >= level);
        level = session.ring.len();
    }
    assert_eq!(level, 64);
    assert_eq!(session.decoder.phase(), DecoderPhase::Streaming);

    assert!(backend.play().is_ok());
    assert!(render(backend.state(), &mut eq, &mut session.ring, &mut out, &arithmetic));
    for (i, word) in out.iter().enumerate() {
        assert_eq!(f32::from_bits(*word), tone(i));
    }
    assert_eq!(session.ring.len(), 48);
}

#[test]
fn replacing_a_track_tears_the_first_session_down_first() {
    let probe = DeviceProbe::Ready { sample_rate: 48000, channels: 2 };
    let mut backend = AudioBackend::with_ring_buffer_size(8, 0.5f32.to_bits(), false, Vec::new(), 100, probe, &arithmetic)
        .ok()
        .unwrap();

    assert!(!backend.stop_decoder());
    let mut first = backend.load_track(Ok(())).ok().unwrap();
    first.decoder.deliver(PacketOutcome::Decoded(vec![1; 100]));
    assert_eq!(first.decoder.advance(false, &mut first.ring), DecoderAction::Backoff(100));

    assert!(backend.stop_decoder());
    let stop = backend.state().stop_requested();
    assert!(stop);
    assert_eq!(first.decoder.advance(stop, &mut first.ring), DecoderAction::Exit);
    assert!(first.decoder.is_finished());
    backend.decoder_joined();
    assert!(!backend.state().stop_requested());

    let mut second = backend.load_track(Ok(())).ok().unwrap();
    assert_eq!(backend.decoder_thread(), DecoderThread::Running);
    assert!(second.ring.is_empty());
    assert_eq!(second.decoder.advance(backend.state().stop_requested(), &mut second.ring), DecoderAction::NextPacket);
    assert!(first.decoder.is_finished());
}
