use termtunes::control::{autoplay_decision, AutoplayAction, PlayQueue};
use termtunes::library::{LibraryState, LibraryTrack};
use termtunes::player::{select_track, track_info_of, PlaybackError, Player, TrackDesc};

/// A minimal 16-bit PCM WAV file with the given mono samples.
fn wav_s16_mono(sample_rate: u32, samples: &[i16]) -> Vec<u8> {
    let data_len = (samples.len() * 2) as u32;
    let mut out = Vec::new();
    out.extend_from_slice(b"RIFF");
    out.extend_from_slice(&(36 + data_len).to_le_bytes());
    out.extend_from_slice(b"WAVE");
    out.extend_from_slice(b"fmt ");
    out.extend_from_slice(&16u32.to_le_bytes());
    out.extend_from_slice(&1u16.to_le_bytes()); // PCM
    out.extend_from_slice(&1u16.to_le_bytes()); // mono
    out.extend_from_slice(&sample_rate.to_le_bytes());
    out.extend_from_slice(&(sample_rate * 2).to_le_bytes());
    out.extend_from_slice(&2u16.to_le_bytes());
    out.extend_from_slice(&16u16.to_le_bytes());
    out.extend_from_slice(b"data");
    out.extend_from_slice(&data_len.to_le_bytes());
    for s in samples {
        out.extend_from_slice(&s.to_le_bytes());
    }
    out
}

fn tone() -> Vec<i16> {
    (0..441).map(|i| (i * 64) as i16).collect()
}

#[test]
fn play_missing_file_is_fatal_and_leaves_engine_unloaded() {
    let mut p = Player::new();
    let r = p.play("nonexistent.mp3".to_string(), None, 0);
    assert_eq!(r, Err(PlaybackError::OpenFailed));
    assert!(!p.is_loaded());
    assert!(!p.is_playing());
}

#[test]
fn play_garbage_bytes_fails_probe() {
    let mut p = Player::new();
    let r = p.play("noise.bin".to_string(), Some(vec![0u8; 64]), 0);
    assert_eq!(r, Err(PlaybackError::ProbeFailed));
    assert!(!p.is_loaded());
}

#[test]
fn play_wav_reports_track_parameters() {
    let mut p = Player::new();
    let wav = wav_s16_mono(44100, &tone());
    let info = p
        .play("track1.wav".to_string(), Some(wav), 1000)
        .expect("wav should open");
    assert_eq!(info.sample_rate, 44100);
    assert_eq!(info.channels, 1);
    assert!(p.is_loaded());
    assert!(p.is_playing());
}

#[test]
fn elapsed_starts_at_zero_and_follows_the_clock() {
    let mut p = Player::new();
    let wav = wav_s16_mono(44100, &tone());
    p.play("track1.wav".to_string(), Some(wav), 1000).unwrap();
    assert_eq!(p.elapsed_seconds(1000), 0);
    assert_eq!(p.elapsed_seconds(6000), 5);
    // position through a 180 s track after 5 s: 5/180 in thousandths
    assert_eq!(p.position_permille(180, 6000), 27);
}

#[test]
fn pause_then_immediate_resume_keeps_elapsed() {
    let mut p = Player::new();
    let wav = wav_s16_mono(44100, &tone());
    p.play("track1.wav".to_string(), Some(wav), 0).unwrap();
    let before = p.elapsed_seconds(4000);
    p.pause(4000);
    p.resume(4000);
    assert_eq!(p.elapsed_seconds(4000), before);
    assert_eq!(p.elapsed_seconds(9000), 9);
}

#[test]
fn paused_time_does_not_count() {
    let mut p = Player::new();
    let wav = wav_s16_mono(44100, &tone());
    p.play("track1.wav".to_string(), Some(wav), 0).unwrap();
    p.pause(2000);
    // elapsed is frozen while paused
    assert_eq!(p.elapsed_seconds(2000), 2);
    assert_eq!(p.elapsed_seconds(50_000), 2);
    p.resume(10_000);
    // 8 paused seconds never count
    assert_eq!(p.elapsed_seconds(12_000), 4);
}

#[test]
fn elapsed_never_decreases_while_playing() {
    let mut p = Player::new();
    let wav = wav_s16_mono(44100, &tone());
    p.play("t.wav".to_string(), Some(wav), 0).unwrap();
    let mut last: u64 = 0;
    for t in [0u64, 100, 2500, 2500, 7000, 30_000] {
        let e = p.elapsed_seconds(t);
        assert!(e >= last);
        last = e;
    }
}

#[test]
fn is_done_requires_empty_queue_and_producer_signal_and_not_paused() {
    let mut p = Player::new();
    let wav = wav_s16_mono(44100, &tone());
    p.play("t.wav".to_string(), Some(wav), 0).unwrap();
    // fresh session: queue observed empty but producer not done -> not done
    assert!(!p.is_done());
    p.observe_queue(false, false);
    assert!(!p.is_done());
    p.observe_queue(true, false);
    assert!(!p.is_done()); // transient underrun is not finished
    p.observe_queue(false, true);
    assert!(!p.is_done());
    p.observe_queue(true, true);
    assert!(p.is_done());
    p.pause(100);
    assert!(!p.is_done()); // paused sessions are never done
    p.resume(200);
    assert!(p.is_done());
}

#[test]
fn idle_engine_is_never_done() {
    let mut p = Player::new();
    assert!(!p.is_done());
    let wav = wav_s16_mono(44100, &tone());
    p.play("t.wav".to_string(), Some(wav), 0).unwrap();
    p.observe_queue(true, true);
    assert!(p.is_done());
    p.stop();
    assert!(!p.is_done());
    assert!(!p.is_loaded());
}

#[test]
fn each_play_supersedes_the_previous_session() {
    let mut p = Player::new();
    let s0 = p.session_id;
    let wav = wav_s16_mono(44100, &tone());
    p.play("a.wav".to_string(), Some(wav.clone()), 0).unwrap();
    let s1 = p.session_id;
    assert_ne!(s0, s1);
    p.play("b.wav".to_string(), Some(wav), 10).unwrap();
    let s2 = p.session_id;
    assert_ne!(s1, s2);
    assert_eq!(p.current_path.as_deref(), Some("b.wav"));
}

fn catalog_with(paths: &[&str]) -> LibraryState {
    let mut lib = LibraryState::new();
    let tracks: Vec<LibraryTrack> = paths
        .iter()
        .enumerate()
        .map(|(i, p)| LibraryTrack {
            path: p.to_string(),
            title: format!("Track {}", i + 1),
            artist: "Artist".to_string(),
            album: "Album".to_string(),
            track_number: Some((i + 1) as u32),
            album_artist: "Artist".to_string(),
            duration: Some(180),
        })
        .collect();
    lib.add_tracks(tracks);
    lib
}

#[test]
fn finishing_a_track_with_autoplay_starts_the_next() {
    let lib = catalog_with(&["a.wav", "b.wav"]);
    let mut p = Player::new();
    let wav = wav_s16_mono(44100, &tone());
    p.play("a.wav".to_string(), Some(wav.clone()), 0).unwrap();

    // the owning loop observes completion
    p.observe_queue(true, true);
    p.update();
    let fired = p.take_autoplay_trigger();
    assert!(fired);

    let next = lib.next_track_path(&"a.wav".to_string());
    assert_eq!(next.as_deref(), Some("b.wav"));
    match autoplay_decision(fired, true, next) {
        AutoplayAction::Start(path) => {
            assert_eq!(path, "b.wav");
            p.play(path, Some(wav), 1000).unwrap();
        }
        _ => panic!("expected the next track to start"),
    }
    assert_eq!(p.current_path.as_deref(), Some("b.wav"));
    assert!(p.is_playing());
}

#[test]
fn finishing_with_autoplay_disabled_goes_idle() {
    let lib = catalog_with(&["a.wav", "b.wav"]);
    let mut p = Player::new();
    let wav = wav_s16_mono(44100, &tone());
    p.play("a.wav".to_string(), Some(wav), 0).unwrap();
    p.observe_queue(true, true);
    p.update();
    let fired = p.take_autoplay_trigger();
    assert!(fired);
    let next = lib.next_track_path(&"a.wav".to_string());
    match autoplay_decision(fired, false, next) {
        AutoplayAction::Stop => p.stop(),
        _ => panic!("autoplay disabled must stop"),
    }
    assert!(!p.is_loaded());
    assert_eq!(p.current_path, None);
}

#[test]
fn autoplay_decision_is_quiet_without_the_signal() {
    assert!(matches!(
        autoplay_decision(false, true, Some("x".to_string())),
        AutoplayAction::Continue
    ));
    assert!(matches!(autoplay_decision(true, true, None), AutoplayAction::Stop));
}

#[test]
fn play_queue_advances_and_clears_at_the_end() {
    let mut q = PlayQueue::new();
    q.set_play_queue(vec!["a".to_string(), "b".to_string(), "c".to_string()], 0);
    assert_eq!(q.advance().as_deref(), Some("b"));
    assert_eq!(q.advance().as_deref(), Some("c"));
    assert_eq!(q.advance(), None);
    assert_eq!(q.entries.len(), 0);
    assert_eq!(q.index, 0);
}

#[test]
fn selection_takes_the_first_supported_track() {
    let descs = vec![
        TrackDesc { supported: false, sample_rate: Some(48000), channels: Some(2) },
        TrackDesc { supported: true, sample_rate: Some(44100), channels: Some(1) },
        TrackDesc { supported: true, sample_rate: Some(22050), channels: Some(2) },
    ];
    assert_eq!(select_track(&descs), Some(1));
}

#[test]
fn no_track_is_selected_when_every_codec_is_the_null_sentinel() {
    let descs = vec![
        TrackDesc { supported: false, sample_rate: None, channels: None },
        TrackDesc { supported: false, sample_rate: Some(8000), channels: Some(1) },
    ];
    assert_eq!(select_track(&descs), None);
    assert_eq!(select_track(&Vec::new()), None);
}

#[test]
fn missing_track_parameters_default_to_cd_stereo() {
    let info = track_info_of(&TrackDesc { supported: true, sample_rate: None, channels: None });
    assert_eq!(info.sample_rate, 44100);
    assert_eq!(info.channels, 2);
}

#[test]
fn pause_and_resume_are_idempotent() {
    let mut p = Player::new();
    p.pause(5); // idle: nothing to pause
    assert!(!p.is_paused());
    let wav = wav_s16_mono(44100, &tone());
    p.play("t.wav".to_string(), Some(wav), 10).unwrap();
    p.pause(20);
    let frozen = p.elapsed_seconds(20);
    p.pause(30); // already paused: no-op
    assert!(p.is_paused());
    assert_eq!(p.elapsed_seconds(30), frozen);
    p.resume(40);
    p.resume(50); // already playing: no-op
    assert!(p.is_playing());
}

#[test]
fn a_finished_session_no_longer_reports_playing() {
    let mut p = Player::new();
    let wav = wav_s16_mono(44100, &tone());
    p.play("t.wav".to_string(), Some(wav), 0).unwrap();
    p.observe_queue(false, false);
    assert!(p.is_playing());
    p.observe_queue(true, false); // transient underrun: still playing
    assert!(p.is_playing());
    p.observe_queue(true, true); // finished
    assert!(p.is_done());
    assert!(!p.is_playing());
    assert!(!p.is_paused());
}

#[test]
fn toggle_pause_flips_between_playing_and_paused() {
    let mut p = Player::new();
    p.toggle_pause(1); // idle: nothing to toggle
    assert!(!p.is_paused());
    let wav = wav_s16_mono(44100, &tone());
    p.play("t.wav".to_string(), Some(wav), 10).unwrap();
    p.toggle_pause(20);
    assert!(p.is_paused());
    p.toggle_pause(30);
    assert!(!p.is_paused());
    assert!(p.is_playing());
    // the 10 ms spent paused never count
    assert_eq!(p.elapsed_seconds(2020), 2);
}
