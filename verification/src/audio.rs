//! Playback controls and the life of a decode session.
//!
//! [`AudioBackend`] is the state that the device callback, the decoder thread
//! and the caller's operations share: the play flag, the volume, the stop
//! signal, whether a decoder thread is attached, and the equalizer. Opening files,
//! starting and joining threads and talking to the device are the caller's
//! work; each operation here says what that work must be and records that it
//! was done.

use vstd::prelude::*;
use crate::arith::{gives, total, SampleOp};
use crate::decoder::{DecoderModel, DecoderSession};
use crate::eq::{section_of, Biquad, EqBandSpec};
use crate::output::{after_drain, drained, render, shaped, silence};
use crate::ring::{valid_capacity, RingBuffer, RingModel};
use crate::sample::{clamp_level, clamp_unit, in_unit_range, is_nan, rank, UNITY};

verus! {

/// The flags and the level that every party to playback reads.
#[derive(Clone, Copy)]
pub struct AudioState {
    playing: bool,
    volume: u32,
    stop_signal: bool,
}

/// [`AudioState`] as its contracts see it.
pub struct StateModel {
    pub playing: bool,
    /// The volume as a sample word, always in the range from zero to one.
    pub volume: u32,
    pub stop_signal: bool,
}

impl View for AudioState {
    type V = StateModel;

    closed spec fn view(&self) -> StateModel {
        StateModel { playing: self.playing, volume: self.volume, stop_signal: self.stop_signal }
    }
}

impl AudioState {
    #[verifier::type_invariant]
    spec fn inv(self) -> bool {
        in_unit_range(self.volume)
    }

    /// Paused, no stop requested, and the volume limited to the range from
    /// zero to one: for every word given, a number or not, the volume is a
    /// number in that range.
    pub fn new(default_volume: u32) -> (state: AudioState)
        ensures
            state@ == (StateModel {
                playing: false,
                volume: clamp_unit(default_volume),
                stop_signal: false,
            }),
            !is_nan(state@.volume),
            0 <= rank(state@.volume) <= rank(UNITY),
    {
        proof {
            crate::sample::lemma_clamp_unit_range(default_volume);
        }
        AudioState { playing: false, volume: clamp_level(default_volume), stop_signal: false }
    }

    pub fn is_playing(&self) -> (playing: bool)
        ensures
            playing == self@.playing,
    {
        self.playing
    }

    /// The volume: always a number, never below zero and never above one.
    pub fn volume(&self) -> (volume: u32)
        ensures
            volume == self@.volume,
            in_unit_range(volume),
            !is_nan(volume),
            0 <= rank(volume) <= rank(UNITY),
    {
        proof {
            use_type_invariant(self);
        }
        self.volume
    }

    /// Whether the decoder thread is asked to end.
    pub fn stop_requested(&self) -> (stop: bool)
        ensures
            stop == self@.stop_signal,
    {
        self.stop_signal
    }
}

/// Whether a decoder thread belongs to the backend.
#[derive(Clone, Copy, PartialEq, Eq, Structural, Debug)]
pub enum DecoderThread {
    /// No thread: nothing is loaded, or the last session was torn down.
    Absent,
    /// A thread decodes the loaded track, or has ended by itself and waits to
    /// be joined.
    Running,
    /// The thread was asked to stop and has not been joined yet.
    Stopping,
}

/// What the search for an output device gave.
#[derive(Clone, Copy, PartialEq, Eq, Structural, Debug)]
pub enum DeviceProbe {
    /// The host has no default output device.
    NoDevice,
    /// The device could not report its default configuration.
    NoConfig,
    /// The device and its native configuration.
    Ready { sample_rate: u32, channels: u16 },
}

/// Why no backend could be made.
#[derive(Clone, Copy, PartialEq, Eq, Structural, Debug)]
pub enum BackendError {
    NoOutputDevice,
    UnsupportedConfig,
}

/// Why a track could not be loaded.
#[derive(Clone, Copy, PartialEq, Eq, Structural, Debug)]
pub enum LoadError {
    /// The file could not be opened.
    Open,
    /// No known container format was recognized in the file.
    UnrecognizedFormat,
    /// The container has no default track.
    NoDefaultTrack,
    /// No decoder is registered for the track's codec.
    NoDecoder,
}

/// [`AudioBackend`] as its contracts see it.
pub struct BackendModel {
    pub state: StateModel,
    pub decoder: DecoderThread,
    pub ring_buffer_size: usize,
    pub producer_sleep_time: u64,
    pub sample_rate: u32,
    pub channels: u16,
    pub eq_enabled: bool,
    /// The sections of the equalizer, first to last.
    pub eq_bands: Seq<Biquad>,
}

/// Whether `bands` is the chain for a list of configured bands at a sample
/// rate in hertz: the rate is turned into a sample value, and every section
/// has the coefficients of its band at that rate and cleared memory.
pub open spec fn configured<A: Fn(SampleOp, u32, u32) -> u32>(
    arith: A,
    eq_bands: Seq<[u32; 4]>,
    sample_rate: u32,
    bands: Seq<Biquad>,
) -> bool {
    exists|rate: u32|
        {
            &&& #[trigger] gives(arith, SampleOp::FromWhole, sample_rate, 0, rate)
            &&& bands.len() == eq_bands.len()
            &&& forall|i: int|
                0 <= i < eq_bands.len() ==> section_of(
                    arith,
                    EqBandSpec::of_words(eq_bands[i]),
                    rate,
                    #[trigger] bands[i],
                )
        }
}

impl BackendModel {
    /// The stop signal is raised exactly while a thread is being stopped, and
    /// the volume is a number from zero to one.
    pub open spec fn wf(self) -> bool {
        self.state.stop_signal == (self.decoder == DecoderThread::Stopping)
            && in_unit_range(self.state.volume)
    }

    /// The backend right after it was made, with the given chain as its
    /// equalizer.
    pub open spec fn initial(
        ring_buffer_size: usize,
        default_volume: u32,
        enable_eq: bool,
        eq_bands: Seq<Biquad>,
        producer_sleep_time: u64,
        sample_rate: u32,
        channels: u16,
    ) -> BackendModel {
        BackendModel {
            state: StateModel {
                playing: false,
                volume: clamp_unit(default_volume),
                stop_signal: false,
            },
            decoder: DecoderThread::Absent,
            ring_buffer_size,
            producer_sleep_time,
            sample_rate,
            channels,
            eq_enabled: enable_eq,
            eq_bands,
        }
    }

    pub open spec fn with_playing(self, playing: bool) -> BackendModel {
        BackendModel { state: StateModel { playing, ..self.state }, ..self }
    }

    pub open spec fn with_volume(self, volume: u32) -> BackendModel {
        BackendModel { state: StateModel { volume: clamp_unit(volume), ..self.state }, ..self }
    }

    /// Asking the decoder thread to stop: a running thread is signalled; with
    /// no thread, or with one that is being stopped already, nothing changes.
    pub open spec fn stop_decoder(self) -> BackendModel {
        if self.decoder == DecoderThread::Running {
            BackendModel {
                state: StateModel { stop_signal: true, ..self.state },
                decoder: DecoderThread::Stopping,
                ..self
            }
        } else {
            self
        }
    }

    /// Whether the caller has a thread to join after `stop_decoder`.
    pub open spec fn join_owed(self) -> bool {
        self.decoder != DecoderThread::Absent
    }

    /// The thread has been joined: the signal is cleared and no thread is
    /// left. Without a stop in progress nothing changes.
    pub open spec fn decoder_joined(self) -> BackendModel {
        if self.decoder == DecoderThread::Stopping {
            BackendModel {
                state: StateModel { stop_signal: false, ..self.state },
                decoder: DecoderThread::Absent,
                ..self
            }
        } else {
            self
        }
    }

    /// A track was opened and its decoder thread is to be started.
    pub open spec fn session_started(self) -> BackendModel {
        BackendModel { decoder: DecoderThread::Running, ..self }
    }

    /// The number of decoder threads that belong to the backend.
    pub open spec fn live_decoders(self) -> nat {
        if self.decoder == DecoderThread::Absent {
            0
        } else {
            1
        }
    }
}

/// What a new decode session starts with: an empty ring buffer between the
/// decoder thread and the device callback, and the decoder's loop state.
pub struct TrackSession {
    pub ring: RingBuffer,
    pub decoder: DecoderSession,
}

/// The flags and the thread slot, which change together.
struct Controls {
    state: AudioState,
    decoder_thread: DecoderThread,
}

impl Controls {
    #[verifier::type_invariant]
    spec fn inv(self) -> bool {
        self.state@.stop_signal == (self.decoder_thread == DecoderThread::Stopping)
    }
}

/// The shared state of one player.
pub struct AudioBackend {
    controls: Controls,
    eq: crate::eq::Eq,
    ring_buffer_size: usize,
    producer_sleep_time: u64,
    sample_rate: u32,
    channels: u16,
}

impl View for AudioBackend {
    type V = BackendModel;

    closed spec fn view(&self) -> BackendModel {
        BackendModel {
            state: self.controls.state@,
            decoder: self.controls.decoder_thread,
            ring_buffer_size: self.ring_buffer_size,
            producer_sleep_time: self.producer_sleep_time,
            sample_rate: self.sample_rate,
            channels: self.channels,
            eq_enabled: self.eq.enabled,
            eq_bands: self.eq.bands@,
        }
    }
}

impl AudioBackend {
    /// Makes the backend for the output device that was found, with the
    /// equalizer for the configured bands at the device's sample rate. A band
    /// is four sample words: frequency, quality factor, gain and shape code.
    /// Without a device, or without its configuration, there is no backend.
    /// The volume is a number from zero to one whatever default was given.
    pub fn with_ring_buffer_size<A>(
        ring_buffer_size: usize,
        default_volume: u32,
        enable_eq: bool,
        eq_bands: Vec<[u32; 4]>,
        producer_sleep_time: u64,
        device: DeviceProbe,
        arith: &A,
    ) -> (r: Result<AudioBackend, BackendError>) where A: Fn(SampleOp, u32, u32) -> u32
        requires
            total(*arith),
        ensures
            device == DeviceProbe::NoDevice ==> r is Err && r->Err_0
                == BackendError::NoOutputDevice,
            device == DeviceProbe::NoConfig ==> r is Err && r->Err_0
                == BackendError::UnsupportedConfig,
            device matches DeviceProbe::Ready { sample_rate, channels } ==> r is Ok && r->Ok_0@
                == BackendModel::initial(
                ring_buffer_size,
                default_volume,
                enable_eq,
                r->Ok_0@.eq_bands,
                producer_sleep_time,
                sample_rate,
                channels,
            ) && configured(*arith, eq_bands@, sample_rate, r->Ok_0@.eq_bands),
            r is Ok ==> r->Ok_0@.wf() && !is_nan(r->Ok_0@.state.volume) && 0 <= rank(
                r->Ok_0@.state.volume,
            ) <= rank(UNITY),
    {
        match device {
            DeviceProbe::NoDevice => Err(BackendError::NoOutputDevice),
            DeviceProbe::NoConfig => Err(BackendError::UnsupportedConfig),
            DeviceProbe::Ready { sample_rate, channels } => {
                let state = AudioState::new(default_volume);
                let rate = arith(SampleOp::FromWhole, sample_rate, 0);
                let eq = crate::eq::Eq::from_config(eq_bands, enable_eq, rate, arith);
                proof {
                    crate::sample::lemma_clamp_unit_range(default_volume);
                    assert(gives(*arith, SampleOp::FromWhole, sample_rate, 0, rate));
                }
                Ok(
                    AudioBackend {
                        controls: Controls { state, decoder_thread: DecoderThread::Absent },
                        eq,
                        ring_buffer_size,
                        producer_sleep_time,
                        sample_rate,
                        channels,
                    },
                )
            },
        }
    }

    /// The shared flags and level, for the device callback and the decoder
    /// thread to read.
    pub fn state(&self) -> (state: &AudioState)
        ensures
            state@ == self@.state,
            self@.wf(),
    {
        proof {
            use_type_invariant(&self.controls);
            use_type_invariant(&self.controls.state);
        }
        &self.controls.state
    }

    /// The equalizer.
    pub fn eq(&self) -> (eq: &crate::eq::Eq)
        ensures
            eq.enabled == self@.eq_enabled,
            eq.bands@ == self@.eq_bands,
    {
        &self.eq
    }

    pub fn decoder_thread(&self) -> (decoder: DecoderThread)
        ensures
            decoder == self@.decoder,
            self@.wf(),
    {
        proof {
            use_type_invariant(&self.controls);
            use_type_invariant(&self.controls.state);
        }
        self.controls.decoder_thread
    }

    pub fn ring_buffer_size(&self) -> (size: usize)
        ensures
            size == self@.ring_buffer_size,
    {
        self.ring_buffer_size
    }

    pub fn producer_sleep_time(&self) -> (micros: u64)
        ensures
            micros == self@.producer_sleep_time,
    {
        self.producer_sleep_time
    }

    pub fn sample_rate(&self) -> (hertz: u32)
        ensures
            hertz == self@.sample_rate,
    {
        self.sample_rate
    }

    pub fn channels(&self) -> (count: u16)
        ensures
            count == self@.channels,
    {
        self.channels
    }

    /// Turns playback on. Decoding is not touched: it runs from the moment a
    /// track is loaded.
    pub fn play(&mut self) -> (r: Result<(), BackendError>)
        ensures
            r is Ok,
            final(self)@ == old(self)@.with_playing(true),
    {
        proof {
            use_type_invariant(&self.controls);
            use_type_invariant(&self.controls.state);
        }
        self.controls = Controls {
            state: AudioState { playing: true, ..self.controls.state },
            decoder_thread: self.controls.decoder_thread,
        };
        Ok(())
    }

    /// Turns playback off. The decoder thread, if any, keeps running.
    pub fn pause(&mut self)
        ensures
            final(self)@ == old(self)@.with_playing(false),
    {
        proof {
            use_type_invariant(&self.controls);
            use_type_invariant(&self.controls.state);
        }
        self.controls = Controls {
            state: AudioState { playing: false, ..self.controls.state },
            decoder_thread: self.controls.decoder_thread,
        };
    }

    /// Stores the volume, limited to the range from zero to one. Whatever
    /// word is given, a number or not, the stored volume is a number, not
    /// less than zero and not more than one.
    pub fn set_volume(&mut self, volume: u32)
        ensures
            final(self)@ == old(self)@.with_volume(volume),
            final(self)@.state.volume == clamp_unit(volume),
            !is_nan(final(self)@.state.volume),
            0 <= rank(final(self)@.state.volume) <= rank(UNITY),
    {
        proof {
            use_type_invariant(&self.controls);
            use_type_invariant(&self.controls.state);
            crate::sample::lemma_clamp_unit_range(volume);
        }
        self.controls = Controls {
            state: AudioState { volume: clamp_level(volume), ..self.controls.state },
            decoder_thread: self.controls.decoder_thread,
        };
    }

    pub fn is_playing(&self) -> (playing: bool)
        ensures
            playing == self@.state.playing,
    {
        self.controls.state.playing
    }

    /// Asks the decoder thread to stop and says whether the caller has a
    /// thread to join. After the join the caller reports `decoder_joined`.
    pub fn stop_decoder(&mut self) -> (join: bool)
        ensures
            final(self)@ == old(self)@.stop_decoder(),
            join == old(self)@.join_owed(),
            final(self)@.wf(),
    {
        proof {
            use_type_invariant(&self.controls);
            use_type_invariant(&self.controls.state);
        }
        match self.controls.decoder_thread {
            DecoderThread::Absent => false,
            DecoderThread::Running => {
                self.controls = Controls {
                    state: AudioState { stop_signal: true, ..self.controls.state },
                    decoder_thread: DecoderThread::Stopping,
                };
                true
            },
            DecoderThread::Stopping => true,
        }
    }

    /// Records that the decoder thread has been joined.
    pub fn decoder_joined(&mut self)
        ensures
            final(self)@ == old(self)@.decoder_joined(),
            final(self)@.wf(),
    {
        proof {
            use_type_invariant(&self.controls);
            use_type_invariant(&self.controls.state);
        }
        match self.controls.decoder_thread {
            DecoderThread::Stopping => {
                self.controls = Controls {
                    state: AudioState { stop_signal: false, ..self.controls.state },
                    decoder_thread: DecoderThread::Absent,
                };
            },
            _ => {},
        }
    }

    /// Stops playback: turns it off and asks the decoder thread to stop. Says
    /// whether the caller has a thread to join, as `stop_decoder` does.
    pub fn stop(&mut self) -> (join: bool)
        ensures
            final(self)@ == old(self)@.stop_decoder().with_playing(false),
            join == old(self)@.join_owed(),
            final(self)@.wf(),
    {
        let join = self.stop_decoder();
        self.pause();
        proof {
            use_type_invariant(&self.controls);
            use_type_invariant(&self.controls.state);
        }
        join
    }

    /// Whether the ring buffer of a session can be made with the configured
    /// size.
    pub fn ring_buffer_size_is_valid(&self) -> (valid: bool)
        ensures
            valid == valid_capacity(self@.ring_buffer_size as int),
    {
        RingBuffer::capacity_is_valid(self.ring_buffer_size)
    }

    /// Starts the session for a track, given what opening it gave. No decoder
    /// thread may be attached: the caller has stopped and joined the previous
    /// one. For a track that was opened the ring buffer size must be valid. A
    /// track that could not be opened leaves the backend as it was, with no
    /// session.
    pub fn load_track(&mut self, opened: Result<(), LoadError>) -> (r: Result<
        TrackSession,
        LoadError,
    >)
        requires
            old(self)@.decoder == DecoderThread::Absent,
            opened is Ok ==> valid_capacity(old(self)@.ring_buffer_size as int),
        ensures
            opened matches Err(e) ==> r is Err && r->Err_0 == e && final(self)@ == old(self)@,
            opened is Ok ==> r is Ok && final(self)@ == old(self)@.session_started(),
            r matches Ok(session) ==> session.ring@ == RingModel::empty(
                old(self)@.ring_buffer_size as nat,
            ) && session.decoder@ == DecoderModel::fresh(old(self)@.producer_sleep_time),
            final(self)@.wf(),
    {
        proof {
            use_type_invariant(&self.controls);
            use_type_invariant(&self.controls.state);
        }
        match opened {
            Err(e) => Err(e),
            Ok(()) => {
                let ring = RingBuffer::new(self.ring_buffer_size);
                let decoder = DecoderSession::new(self.producer_sleep_time);
                self.controls = Controls {
                    state: self.controls.state,
                    decoder_thread: DecoderThread::Running,
                };
                Ok(TrackSession { ring, decoder })
            },
        }
    }

    /// One whole invocation of the device callback on the backend's own
    /// flags, volume and equalizer. Paused: `out` is silence, and neither the
    /// ring buffer nor the equalizer is touched. Playing: one sample per slot
    /// leaves the ring buffer, silence standing in where it ran empty; each
    /// goes through the equalizer if that is enabled, and is multiplied by
    /// the volume. Nothing of the backend but the memory of the equalizer
    /// changes.
    pub fn render<A>(&mut self, ring: &mut RingBuffer, out: &mut Vec<u32>, arith: &A) -> (live:
        bool) where A: Fn(SampleOp, u32, u32) -> u32
        requires
            total(*arith),
        ensures
            live == old(self)@.state.playing,
            final(self)@ == (BackendModel { eq_bands: final(self)@.eq_bands, ..old(self)@ }),
            final(out)@.len() == old(out)@.len(),
            !live ==> final(out)@ == silence(old(out)@.len()) && final(ring)@ == old(ring)@
                && final(self)@ == old(self)@,
            live ==> final(ring)@ == after_drain(old(ring)@, old(out)@.len()),
            live ==> exists|trace: Seq<Seq<Biquad>>, signals: Seq<Seq<u32>>|
                {
                    &&& #[trigger] shaped(
                        *arith,
                        old(self)@.eq_enabled,
                        old(self)@.state.volume,
                        trace,
                        signals,
                        drained(old(ring)@.items, old(out)@.len()),
                        final(out)@,
                    )
                    &&& trace.first() == old(self)@.eq_bands
                    &&& trace.last() == final(self)@.eq_bands
                },
    {
        render(&self.controls.state, &mut self.eq, ring, out, arith)
    }
}

/// Every control operation keeps the stop signal raised exactly while a
/// thread is being stopped, and keeps the volume in its range.
pub proof fn lemma_operations_keep_wf(backend: BackendModel, volume: u32, playing: bool)
    requires
        backend.wf(),
    ensures
        backend.with_playing(playing).wf(),
        backend.with_volume(volume).wf(),
        backend.stop_decoder().wf(),
        backend.decoder_joined().wf(),
        backend.decoder == DecoderThread::Absent ==> backend.session_started().wf(),
{
    crate::sample::lemma_clamp_unit_range(volume);
}

/// Setting the volume and reading it back gives the value limited to the
/// range from zero to one: a number in that range whatever word was set, a
/// number or not. No other operation on the controls changes it.
pub proof fn lemma_volume_is_clamped(backend: BackendModel, volume: u32, playing: bool)
    ensures
        backend.with_volume(volume).state.volume == clamp_unit(volume),
        !is_nan(backend.with_volume(volume).state.volume),
        0 <= rank(backend.with_volume(volume).state.volume) <= rank(UNITY),
        backend.with_playing(playing).state.volume == backend.state.volume,
        backend.stop_decoder().state.volume == backend.state.volume,
        backend.decoder_joined().state.volume == backend.state.volume,
        backend.session_started().state.volume == backend.state.volume,
{
    crate::sample::lemma_clamp_unit_range(volume);
}

/// Stopping a backend that is stopped already, and pausing one that is paused
/// or has never loaded a track, change nothing and leave no thread to join.
pub proof fn lemma_stop_and_pause_are_idempotent(backend: BackendModel)
    ensures
        backend.decoder == DecoderThread::Absent ==> backend.stop_decoder() == backend
            && !backend.join_owed(),
        backend.decoder == DecoderThread::Absent && !backend.state.playing
            ==> backend.stop_decoder().with_playing(false) == backend,
        !backend.state.playing ==> backend.with_playing(false) == backend,
        backend.with_playing(false).with_playing(false) == backend.with_playing(false),
        backend.stop_decoder().stop_decoder() == backend.stop_decoder(),
        backend.decoder_joined().decoder_joined() == backend.decoder_joined(),
{
}

/// A full stop, request and join, leaves no thread and no raised signal; a
/// load after it leaves exactly one thread. So loading twice in a row, each
/// load preceded by its stop, never has two decoder threads: the first is
/// joined before the second is started.
pub proof fn lemma_one_decoder_per_backend(backend: BackendModel)
    requires
        backend.wf(),
    ensures
        backend.live_decoders() <= 1,
        backend.stop_decoder().decoder_joined().decoder == DecoderThread::Absent,
        backend.stop_decoder().decoder_joined().live_decoders() == 0,
        !backend.stop_decoder().decoder_joined().state.stop_signal,
        backend.stop_decoder().decoder_joined().session_started().live_decoders() == 1,
        backend.stop_decoder().decoder_joined().session_started().stop_decoder().decoder_joined().session_started().live_decoders()
            == 1,
{
}

/// Pausing and resuming touch neither the decoder thread nor the stop
/// signal: decoding goes on while playback is paused.
pub proof fn lemma_pause_keeps_decoding(backend: BackendModel)
    ensures
        backend.with_playing(false).decoder == backend.decoder,
        backend.with_playing(false).state.stop_signal == backend.state.stop_signal,
        backend.with_playing(false).with_playing(true) == backend.with_playing(true),
{
}

} // verus!
