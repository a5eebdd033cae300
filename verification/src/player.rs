//! The playback controller: lifecycle state machine, wall-clock position
//! model, finished detection and the autoplay signal.
//!
//! The controller owns the session bookkeeping as plain values.  Opening a
//! track probes the container bytes through symphonia and selects the
//! first track with a real codec; the hardware stream, the decode thread
//! and the clock live in the application shell, which passes file contents
//! and millisecond timestamps in and carries actions out.  Timestamps must
//! come from a monotone clock: no call may see time run backwards.

use vstd::prelude::*;

verus! {

/// Lifecycle of the engine.  Loading and the transient finished signal are
/// not stored: a `play` call either completes into `Playing` or falls back
/// to `Idle`, and track completion is reported through `is_done` and the
/// autoplay trigger.
#[derive(Clone, Copy, Debug, PartialEq, Eq, Structural)]
pub enum PlayerState {
    Idle,
    Playing,
    Paused,
}

/// Why a `play` call failed; every variant is fatal to the session and
/// leaves the engine idle.  The last two are reported by the shell when
/// the decoder or the output device cannot be brought up.
#[derive(Clone, Copy, Debug, PartialEq, Eq, Structural)]
pub enum PlaybackError {
    OpenFailed,
    ProbeFailed,
    NoSupportedTrack,
    DecoderInit,
    OutputDevice,
}

/// Device-relevant parameters of the selected track.
#[derive(Clone, Copy, Debug, PartialEq, Eq, Structural)]
pub struct TrackInfo {
    pub sample_rate: u32,
    pub channels: usize,
}

/// One probed track, reduced to what selection needs: whether its codec is
/// real (not the null sentinel) and its declared parameters.
#[derive(Clone, Debug)]
pub struct TrackDesc {
    pub supported: bool,
    pub sample_rate: Option<u32>,
    pub channels: Option<usize>,
}

/// Whether probing these exact bytes finds a container format under the
/// player's reader set.  Probing is a pure function of the bytes; this
/// names its success.
pub uninterp spec fn probe_ok(data: Seq<u8>) -> bool;

/// The probed container's track table for these exact bytes, reduced to
/// plain values, in container order.  Like `probe_ok`, a pure function of
/// the bytes; meaningful where `probe_ok` holds.
pub uninterp spec fn container_tracks(data: Seq<u8>) -> Seq<TrackDesc>;

/// symphonia's format prober, opaque to the library: only built by
/// `player_probe` and consumed by `probe_tracks`.
#[verifier::external_type_specification]
#[verifier::external_body]
pub struct ExProbe(symphonia::core::probe::Probe);

/// Relies on `Probe::register_all` to build the fixed prober the engine
/// uses: exactly the mp3, flac and wav readers the player decodes, and no
/// metadata reader — the stock `get_probe` would also chain symphonia's
/// id3v2 tag reader, whose extended-header path can panic on malformed
/// tag bytes.
#[verifier::external_body]
fn player_probe() -> (r: symphonia::core::probe::Probe) {
    let mut probe = symphonia::core::probe::Probe::default();
    probe.register_all::<symphonia::default::formats::MpaReader>();
    probe.register_all::<symphonia::default::formats::FlacReader>();
    probe.register_all::<symphonia::default::formats::WavReader>();
    probe
}

/// Relies on symphonia's `Probe::format` to find a container format in a
/// byte stream under the fixed reader set of `player_probe`, and on
/// `FormatReader::tracks` to list that container's tracks.  The prober
/// ignores its hint and scans the bytes against its registered markers,
/// so the outcome is a function of the bytes alone: `probe_ok` names its
/// success, `container_tracks` the listed tracks, each reduced to plain
/// values (`supported` is whether the codec differs from the
/// `CODEC_TYPE_NULL` sentinel, sample rate and channel count are copied
/// out).  The registered readers are relied on to report malformed
/// headers as errors rather than panic.
#[verifier::external_body]
fn probe_tracks(data: &Vec<u8>) -> (r: Option<Vec<TrackDesc>>)
    ensures
        r is Some <==> probe_ok(data@),
        r matches Some(descs) ==> descs@ == container_tracks(data@),
{
    let cursor = Box::new(std::io::Cursor::new(data.clone()));
    let mss = symphonia::core::io::MediaSourceStream::new(cursor, Default::default());
    let hint = symphonia::core::probe::Hint::new();
    let probed = player_probe().format(&hint, mss, &Default::default(), &Default::default()).ok()?;
    let mut out = Vec::new();
    for t in probed.format.tracks() {
        out.push(TrackDesc {
            supported: t.codec_params.codec != symphonia::core::codecs::CODEC_TYPE_NULL,
            sample_rate: t.codec_params.sample_rate,
            channels: match t.codec_params.channels { Some(c) => Some(c.count()), None => None },
        });
    }
    Some(out)
}

/// Select the first track whose codec is real; `None` when no track of
/// the container is supported.
pub fn select_track(descs: &Vec<TrackDesc>) -> (r: Option<usize>)
    ensures
        r is None <==> (forall|i: int| 0 <= i < descs@.len() ==> !descs@[i].supported),
        r matches Some(i) ==> i < descs@.len() && descs@[i as int].supported && (forall|j: int|
            0 <= j < i ==> !descs@[j].supported),
{
    let mut i: usize = 0;
    while i < descs.len()
        invariant
            i <= descs@.len(),
            forall|j: int| 0 <= j < i ==> !descs@[j].supported,
        decreases descs@.len() - i,
    {
        if descs[i].supported {
            return Some(i);
        }
        i += 1;
    }
    None
}

/// Device parameters of a selected track: a missing sample rate is taken
/// as 44100 Hz, a missing channel layout as stereo.
pub fn track_info_of(d: &TrackDesc) -> (info: TrackInfo)
    ensures
        info.sample_rate == (match d.sample_rate {
            Some(r) => r,
            None => 44100u32,
        }),
        info.channels == (match d.channels {
            Some(c) => c,
            None => 2usize,
        }),
{
    TrackInfo {
        sample_rate: match d.sample_rate {
            Some(r) => r,
            None => 44100,
        },
        channels: match d.channels {
            Some(c) => c,
            None => 2,
        },
    }
}

/// The playback controller.
pub struct Player {
    /// Lifecycle state.
    pub state: PlayerState,
    /// Path of the loaded track; `None` exactly when idle.
    pub current_path: Option<String>,
    /// Whether finishing a track should start the next one.
    pub autoplay: bool,
    /// One-bit completion signal, set on finished detection and cleared
    /// when the owning loop takes it.
    pub autoplay_trigger: bool,
    /// Generation counter of the sample queue: each `play` or `stop`
    /// supersedes the previous session, so stale producers go void.
    pub session_id: u64,
    /// Last observed producer-completion signal.
    pub producer_done: bool,
    /// Last observed queue emptiness.
    pub queue_empty: bool,
    /// Parameters of the loaded track.
    pub track: Option<TrackInfo>,
    /// Wall-clock start of the session, in milliseconds.
    pub start_ms: u64,
    /// Instant the current pause began; meaningful only while paused.
    pub paused_at_ms: u64,
    /// Total time spent paused in this session, excluding a current pause.
    pub paused_accum_ms: u64,
    /// Latest clock value any call has seen.
    pub last_ms: u64,
}

/// Internal consistency: the idle state carries no track, and the timing
/// fields never let the elapsed-time subtraction underflow.
pub open spec fn player_wf(p: Player) -> bool {
    &&& (p.state is Idle <==> p.current_path is None)
    &&& (p.state is Idle ==> p.track is None)
    &&& (p.state is Playing ==> p.start_ms + p.paused_accum_ms <= p.last_ms)
    &&& (p.state is Paused ==> p.start_ms + p.paused_accum_ms <= p.paused_at_ms
        && p.paused_at_ms <= p.last_ms)
}

/// Wall-clock elapsed playing time at instant `now`: time since start,
/// less everything spent paused; frozen at the pause instant while paused.
pub open spec fn spec_elapsed_ms(p: Player, now: u64) -> int {
    match p.state {
        PlayerState::Idle => 0,
        PlayerState::Playing => now - p.start_ms - p.paused_accum_ms,
        PlayerState::Paused => p.paused_at_ms - p.start_ms - p.paused_accum_ms,
    }
}

/// The engine after a teardown: idle, nothing loaded, the session
/// superseded, observations reset to a fresh empty queue.
pub open spec fn spec_stop(p: Player) -> Player {
    Player {
        state: PlayerState::Idle,
        current_path: None,
        track: None,
        session_id: (p.session_id + 1) as u64,
        producer_done: false,
        queue_empty: true,
        autoplay_trigger: false,
        start_ms: 0,
        paused_at_ms: 0,
        paused_accum_ms: 0,
        ..p
    }
}

/// The engine after a failed `play` at instant `now`: torn down and idle.
pub open spec fn spec_play_fail(p: Player, now: u64) -> Player {
    Player { last_ms: now, ..spec_stop(p) }
}

/// The engine after a successful `play` of `path` at instant `now`.
pub open spec fn spec_play_ok(p: Player, path: String, info: TrackInfo, now: u64) -> Player {
    Player {
        state: PlayerState::Playing,
        current_path: Some(path),
        track: Some(info),
        start_ms: now,
        last_ms: now,
        ..spec_play_fail(p, now)
    }
}

/// `pause` at instant `now`: only meaningful while playing; idempotent
/// otherwise.
pub open spec fn spec_pause(p: Player, now: u64) -> Player {
    if p.state is Playing {
        Player { state: PlayerState::Paused, paused_at_ms: now, last_ms: now, ..p }
    } else {
        p
    }
}

/// `resume` at instant `now`: only meaningful while paused; the span of
/// the ending pause moves into the paused accumulator.
pub open spec fn spec_resume(p: Player, now: u64) -> Player {
    if p.state is Paused {
        Player {
            state: PlayerState::Playing,
            paused_at_ms: 0,
            paused_accum_ms: (p.paused_accum_ms + (now - p.paused_at_ms)) as u64,
            last_ms: now,
            ..p
        }
    } else {
        p
    }
}

/// Finished detection: the queue is observably empty, the decode producer
/// has signalled completion, and the session is not paused.  A transient
/// underrun during decoding is not finished, because the producer has not
/// signalled; an idle engine is not finished, because its observations
/// were reset when the session ended.
pub open spec fn spec_done(p: Player) -> bool {
    p.queue_empty && p.producer_done && !(p.state is Paused)
}

impl Player {
    /// A fresh engine: idle, nothing loaded, autoplay enabled.
    pub fn new() -> (p: Player)
        ensures
            player_wf(p),
            p.state is Idle,
            p.current_path is None,
            p.autoplay,
            !p.autoplay_trigger,
            p.session_id == 0,
            !p.producer_done,
            p.queue_empty,
            p.track is None,
            p.start_ms == 0,
            p.paused_at_ms == 0,
            p.paused_accum_ms == 0,
            p.last_ms == 0,
    {
        Player {
            state: PlayerState::Idle,
            current_path: None,
            autoplay: true,
            autoplay_trigger: false,
            session_id: 0,
            producer_done: false,
            queue_empty: true,
            track: None,
            start_ms: 0,
            paused_at_ms: 0,
            paused_accum_ms: 0,
            last_ms: 0,
        }
    }

    /// Tear the session down from any state: discard the loaded track,
    /// supersede the sample queue, return to idle.  The decode thread is
    /// only detached — its queue token has gone stale, so anything it
    /// still produces is void.
    pub fn stop(&mut self)
        requires
            old(self).session_id < u64::MAX,
        ensures
            *final(self) == spec_stop(*old(self)),
            player_wf(*final(self)),
    {
        self.state = PlayerState::Idle;
        self.current_path = None;
        self.track = None;
        self.session_id = self.session_id + 1;
        self.producer_done = false;
        self.queue_empty = true;
        self.autoplay_trigger = false;
        self.start_ms = 0;
        self.paused_at_ms = 0;
        self.paused_accum_ms = 0;
    }

    /// Start playback of `path`, whose file contents the shell hands over
    /// (`None` when the file could not be read).  Any current session is
    /// stopped first.  The bytes are probed for a container format and the
    /// first supported track is selected; on success the engine is playing
    /// with a fresh session and the clock started at `now_ms`, on any
    /// failure it is idle with nothing loaded.  No retry is attempted.
    pub fn play(&mut self, path: String, file: Option<Vec<u8>>, now_ms: u64) -> (r: Result<
        TrackInfo,
        PlaybackError,
    >)
        requires
            player_wf(*old(self)),
            now_ms >= old(self).last_ms,
            old(self).session_id < u64::MAX,
        ensures
            player_wf(*final(self)),
            final(self).session_id == old(self).session_id + 1,
            final(self).autoplay == old(self).autoplay,
            r is Err ==> *final(self) == spec_play_fail(*old(self), now_ms),
            r matches Ok(info) ==> *final(self) == spec_play_ok(*old(self), path, info, now_ms),
            (r == Err::<TrackInfo, PlaybackError>(PlaybackError::OpenFailed)) <==> file is None,
            file matches Some(data) ==> ({
                let descs = container_tracks(data@);
                &&& ((r == Err::<TrackInfo, PlaybackError>(PlaybackError::ProbeFailed)) <==> !probe_ok(
                    data@,
                ))
                &&& (probe_ok(data@) ==> ((r == Err::<TrackInfo, PlaybackError>(
                    PlaybackError::NoSupportedTrack,
                )) <==> (forall|i: int| 0 <= i < descs.len() ==> !descs[i].supported)))
                &&& (probe_ok(data@) && (exists|i: int|
                    0 <= i < descs.len() && (#[trigger] descs[i]).supported) ==> r is Ok)
                &&& (r matches Ok(info) ==> probe_ok(data@) && (exists|i: int|
                    #![auto]
                    0 <= i < descs.len() && descs[i].supported && (forall|j: int|
                        0 <= j < i ==> !descs[j].supported) && info.sample_rate == (
                    match descs[i].sample_rate {
                        Some(sr) => sr,
                        None => 44100u32,
                    }) && info.channels == (match descs[i].channels {
                        Some(c) => c,
                        None => 2usize,
                    })))
            }),
            r is Err ==> r == Err::<TrackInfo, PlaybackError>(PlaybackError::OpenFailed) || r
                == Err::<TrackInfo, PlaybackError>(PlaybackError::ProbeFailed) || r == Err::<
                TrackInfo,
                PlaybackError,
            >(PlaybackError::NoSupportedTrack),
    {
        self.stop();
        self.last_ms = now_ms;
        let data = match file {
            None => {
                return Err(PlaybackError::OpenFailed);
            },
            Some(data) => data,
        };
        let descs = match probe_tracks(&data) {
            None => {
                return Err(PlaybackError::ProbeFailed);
            },
            Some(descs) => descs,
        };
        let chosen = match select_track(&descs) {
            None => {
                return Err(PlaybackError::NoSupportedTrack);
            },
            Some(i) => i,
        };
        let info = track_info_of(&descs[chosen]);
        self.state = PlayerState::Playing;
        self.current_path = Some(path);
        self.track = Some(info);
        self.start_ms = now_ms;
        Ok(info)
    }

    /// Pause a playing session at instant `now_ms`; a no-op in any other
    /// state (idempotent).
    pub fn pause(&mut self, now_ms: u64)
        requires
            player_wf(*old(self)),
            now_ms >= old(self).last_ms,
        ensures
            *final(self) == spec_pause(*old(self), now_ms),
            player_wf(*final(self)),
    {
        if matches!(self.state, PlayerState::Playing) {
            self.state = PlayerState::Paused;
            self.paused_at_ms = now_ms;
            self.last_ms = now_ms;
        }
    }

    /// Resume a paused session at instant `now_ms`; a no-op in any other
    /// state (idempotent).
    pub fn resume(&mut self, now_ms: u64)
        requires
            player_wf(*old(self)),
            now_ms >= old(self).last_ms,
        ensures
            *final(self) == spec_resume(*old(self), now_ms),
            player_wf(*final(self)),
    {
        if matches!(self.state, PlayerState::Paused) {
            self.paused_accum_ms = self.paused_accum_ms + (now_ms - self.paused_at_ms);
            self.paused_at_ms = 0;
            self.state = PlayerState::Playing;
            self.last_ms = now_ms;
        }
    }

    /// Pause when playing, resume when paused, at instant `now_ms`; a
    /// no-op when idle.
    pub fn toggle_pause(&mut self, now_ms: u64)
        requires
            player_wf(*old(self)),
            now_ms >= old(self).last_ms,
        ensures
            *final(self) == if old(self).state is Paused {
                spec_resume(*old(self), now_ms)
            } else {
                spec_pause(*old(self), now_ms)
            },
            player_wf(*final(self)),
    {
        if self.is_paused() {
            self.resume(now_ms);
        } else {
            self.pause(now_ms);
        }
    }

    /// Record what the owning loop observed of the sample queue: whether
    /// it is empty and whether the producer has signalled completion.
    pub fn observe_queue(&mut self, queue_empty: bool, producer_done: bool)
        ensures
            *final(self) == (Player { queue_empty, producer_done, ..*old(self) }),
    {
        self.queue_empty = queue_empty;
        self.producer_done = producer_done;
    }

    /// Raise the autoplay signal the instant a loaded session is detected
    /// finished; otherwise leave everything as it is.
    pub fn update(&mut self)
        ensures
            *final(self) == (Player {
                autoplay_trigger: old(self).autoplay_trigger || (old(self).current_path is Some
                    && spec_done(*old(self))),
                ..*old(self)
            }),
    {
        if self.current_path.is_some() && self.is_done() {
            self.autoplay_trigger = true;
        }
    }

    /// Take the one-bit autoplay signal, clearing it.
    pub fn take_autoplay_trigger(&mut self) -> (was: bool)
        ensures
            was == old(self).autoplay_trigger,
            *final(self) == (Player { autoplay_trigger: false, ..*old(self) }),
    {
        let was = self.autoplay_trigger;
        self.autoplay_trigger = false;
        was
    }

    pub fn is_paused(&self) -> (r: bool)
        ensures
            r == (self.state is Paused),
    {
        matches!(self.state, PlayerState::Paused)
    }

    /// Whether sound is actually moving: a playing session that is not
    /// finished.  A session whose queue has drained after the producer
    /// signalled completion no longer reports playing, even before the
    /// transient finished signal is acted on.
    pub fn is_playing(&self) -> (r: bool)
        ensures
            r == (self.state is Playing && !spec_done(*self)),
    {
        matches!(self.state, PlayerState::Playing) && !(self.queue_empty && self.producer_done)
    }

    pub fn is_loaded(&self) -> (r: bool)
        ensures
            r == (self.current_path is Some),
    {
        self.current_path.is_some()
    }

    /// Finished detection, exactly: true if and only if the queue was
    /// observed empty, the decode producer has signalled completion, and
    /// the session is not paused.
    pub fn is_done(&self) -> (r: bool)
        ensures
            r == spec_done(*self),
    {
        self.queue_empty && self.producer_done && !matches!(self.state, PlayerState::Paused)
    }

    /// Elapsed wall-clock playing time in milliseconds at instant
    /// `now_ms`.
    pub fn elapsed_ms(&self, now_ms: u64) -> (r: u64)
        requires
            player_wf(*self),
            now_ms >= self.last_ms,
        ensures
            r == spec_elapsed_ms(*self, now_ms),
    {
        match self.state {
            PlayerState::Idle => 0,
            PlayerState::Playing => now_ms - self.start_ms - self.paused_accum_ms,
            PlayerState::Paused => self.paused_at_ms - self.start_ms - self.paused_accum_ms,
        }
    }

    /// Elapsed wall-clock playing time in whole seconds.
    pub fn elapsed_seconds(&self, now_ms: u64) -> (r: u64)
        requires
            player_wf(*self),
            now_ms >= self.last_ms,
        ensures
            r == spec_elapsed_ms(*self, now_ms) / 1000,
    {
        self.elapsed_ms(now_ms) / 1000
    }

    /// Playback position in whole seconds, clamped to the track duration.
    pub fn position_seconds(&self, duration_s: u64, now_ms: u64) -> (r: u64)
        requires
            player_wf(*self),
            now_ms >= self.last_ms,
        ensures
            r == if spec_elapsed_ms(*self, now_ms) / 1000 <= duration_s {
                spec_elapsed_ms(*self, now_ms) / 1000
            } else {
                duration_s as int
            },
    {
        let es = self.elapsed_seconds(now_ms);
        if es <= duration_s {
            es
        } else {
            duration_s
        }
    }

    /// Playback progress through a track of `duration_s` seconds, in
    /// thousandths: clamped position over duration, or zero for an
    /// unknown duration.
    pub fn position_permille(&self, duration_s: u64, now_ms: u64) -> (r: u64)
        requires
            player_wf(*self),
            now_ms >= self.last_ms,
        ensures
            duration_s == 0 ==> r == 0,
            duration_s > 0 ==> r == ({
                let pos = if spec_elapsed_ms(*self, now_ms) / 1000 <= duration_s {
                    spec_elapsed_ms(*self, now_ms) / 1000
                } else {
                    duration_s as int
                };
                pos * 1000 / (duration_s as int)
            }),
            r <= 1000,
    {
        if duration_s == 0 {
            return 0;
        }
        let pos = self.position_seconds(duration_s, now_ms);
        let r = ((pos as u128) * 1000 / (duration_s as u128)) as u64;
        proof {
            lemma_ratio_bounded(pos as int, duration_s as int);
        }
        r
    }
}

/// A clamped ratio in thousandths never exceeds 1000.
proof fn lemma_ratio_bounded(pos: int, duration: int)
    requires
        0 <= pos <= duration,
        0 < duration,
    ensures
        pos * 1000 / duration <= 1000,
{
    assert(pos * 1000 <= duration * 1000) by (nonlinear_arith)
        requires
            0 <= pos <= duration,
    ;
    assert(pos * 1000 / duration <= duration * 1000 / duration) by (nonlinear_arith)
        requires
            0 < duration && pos * 1000 <= duration * 1000,
    ;
    assert(duration * 1000 / duration == 1000) by (nonlinear_arith)
        requires
            0 < duration,
    ;
}

/// Pausing and immediately resuming with no wall-clock time elapsed
/// leaves the elapsed-time accounting unchanged, at that instant and at
/// every later one.
pub proof fn lemma_pause_resume_elapsed(p: Player, t: u64, later: u64)
    requires
        player_wf(p),
        p.state is Playing,
        t >= p.last_ms,
        later >= t,
    ensures
        spec_elapsed_ms(spec_resume(spec_pause(p, t), t), later) == spec_elapsed_ms(p, later),
{
}

/// While playing, elapsed time never decreases as the clock advances.
pub proof fn lemma_elapsed_monotone_playing(p: Player, t1: u64, t2: u64)
    requires
        player_wf(p),
        p.state is Playing,
        p.last_ms <= t1 <= t2,
    ensures
        spec_elapsed_ms(p, t1) <= spec_elapsed_ms(p, t2),
{
}

/// While paused, elapsed time is constant: it does not depend on the
/// clock at all.
pub proof fn lemma_elapsed_constant_paused(p: Player, t1: u64, t2: u64)
    requires
        p.state is Paused,
    ensures
        spec_elapsed_ms(p, t1) == spec_elapsed_ms(p, t2),
{
}

} // verus!
