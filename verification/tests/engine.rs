use kinetix_engine::decoding::{Rational, StreamInfo, VideoDecoder};
use kinetix_engine::engine::{KinetixEngine, PlaybackState, SyncPlan};
use kinetix_engine::timeline::Clip;

const SECOND: i64 = 1_000_000;

fn clip_of(id: &str, path: &str, start: i64, duration: i64, offset: i64, z_index: i32) -> Clip {
    Clip {
        id: id.to_string(),
        path: path.to_string(),
        name: id.to_string(),
        start,
        duration,
        offset,
        track_id: 1,
        z_index,
    }
}

fn decoder_of(path: &str, fps_num: i32, fps_den: i32) -> VideoDecoder {
    let info = StreamInfo {
        index: 0,
        time_base: Rational { num: 1, den: 90_000 },
        rate: Rational { num: fps_num, den: fps_den },
        width: 640,
        height: 360,
    };
    VideoDecoder::new(path, Some(info)).unwrap()
}

/// An engine that plays `/media/a.mp4` from time 0 to 10 s, with the source
/// open at 30 frames a second, started at wall-clock time 1000.
fn playing_engine() -> KinetixEngine {
    let mut engine = KinetixEngine::new();
    engine.presenter_attached();
    engine.timeline_manager.add_clip(clip_of("a", "/media/a.mp4", 0, 10 * SECOND, 0, 1));
    engine.source_opened("/media/a.mp4", decoder_of("/media/a.mp4", 30, 1));
    engine.play(1_000);
    engine
}

#[test]
fn new_engine_is_stopped_and_empty() {
    let engine = KinetixEngine::new();
    assert!(engine.decoder.is_none());
    assert!(engine.current_file.is_none());
    assert_eq!(engine.playback_state, PlaybackState::default());
    assert!(engine.timeline_manager.timeline.clips.is_empty());
    assert_eq!(engine.timeline_manager.timeline.tracks.len(), 2);
    assert!(!engine.presenter_ready);
    assert_eq!((engine.width, engine.height), (1920, 1080));
}

#[test]
fn default_playback_state_is_stopped_at_zero() {
    let state = PlaybackState::default();
    assert!(!state.is_playing);
    assert_eq!(state.current_time, 0);
    assert_eq!(state.duration, 0);
    assert_eq!(state.last_frame_time, None);
}

#[test]
fn tick_while_stopped_changes_nothing_and_asks_for_nothing() {
    let mut engine = playing_engine();
    engine.pause();
    engine.playback_state.current_time = 2 * SECOND;
    let before = engine.playback_state;
    assert_eq!(engine.tick(16_000, 99_000_000), SyncPlan::Hold);
    assert_eq!(engine.playback_state, before);
    assert_eq!(engine.playback_state.current_time, 2 * SECOND);
}

#[test]
fn play_stamps_the_wall_clock_and_pause_clears_it() {
    let mut engine = KinetixEngine::new();
    engine.play(5_000);
    assert!(engine.playback_state.is_playing);
    assert_eq!(engine.playback_state.last_frame_time, Some(5_000));
    engine.pause();
    assert!(!engine.playback_state.is_playing);
    assert_eq!(engine.playback_state.last_frame_time, None);
    assert_eq!(engine.playback_state.current_time, 0);
}

#[test]
fn tick_advances_the_playhead_by_the_step() {
    let mut engine = playing_engine();
    engine.tick(16_000, 2_000);
    assert_eq!(engine.playback_state.current_time, 16_000);
    engine.tick(17_000, 3_000);
    assert_eq!(engine.playback_state.current_time, 33_000);
    engine.tick(-3_000, 4_000);
    assert_eq!(engine.playback_state.current_time, 30_000);
}

#[test]
fn tick_without_an_active_clip_holds() {
    let mut engine = playing_engine();
    engine.playback_state.current_time = 20 * SECOND;
    assert_eq!(engine.tick(16_000, 99_000_000), SyncPlan::Hold);
    assert_eq!(engine.playback_state.current_time, 20 * SECOND + 16_000);
}

#[test]
fn frame_is_asked_for_once_the_frame_interval_has_passed() {
    // At 30 frames a second a frame lasts a thirtieth of a second.
    let mut engine = playing_engine();
    assert_eq!(engine.tick(16_000, 1_000 + 33_333), SyncPlan::Hold);
    assert_eq!(engine.tick(1, 1_000 + 33_334), SyncPlan::Advance);
    assert_eq!(engine.playback_state.last_frame_time, Some(1_000));
    engine.frame_presented(1_000 + 33_334);
    assert_eq!(engine.playback_state.last_frame_time, Some(34_334));
    assert_eq!(engine.tick(16_000, 34_334 + 16_000), SyncPlan::Hold);
    assert_eq!(engine.tick(16_000, 34_334 + 40_000), SyncPlan::Advance);
}

#[test]
fn frame_interval_follows_the_frame_rate() {
    let mut engine = playing_engine();
    engine.source_opened("/media/a.mp4", decoder_of("/media/a.mp4", 30_000, 1_001));
    assert_eq!(engine.tick(1, 1_000 + 33_366), SyncPlan::Hold);
    assert_eq!(engine.tick(1, 1_000 + 33_367), SyncPlan::Advance);
    engine.source_opened("/media/a.mp4", decoder_of("/media/a.mp4", 1, 2));
    assert_eq!(engine.tick(1, 1_000 + 1_999_999), SyncPlan::Hold);
    assert_eq!(engine.tick(1, 1_000 + 2_000_000), SyncPlan::Advance);
}

#[test]
fn unknown_frame_rate_takes_the_nominal_interval() {
    for (num, den) in [(0, 1), (0, 0), (30, 0), (-30, 1), (30, -1)] {
        let mut engine = playing_engine();
        engine.source_opened("/media/a.mp4", decoder_of("/media/a.mp4", num, den));
        assert_eq!(engine.tick(1, 1_000 + 32_999), SyncPlan::Hold);
        assert_eq!(engine.tick(1, 1_000 + 33_000), SyncPlan::Advance);
    }
}

#[test]
fn wall_clock_that_went_back_counts_as_no_time_passed() {
    let mut engine = playing_engine();
    assert_eq!(engine.tick(16_000, 10), SyncPlan::Hold);
    assert_eq!(engine.playback_state.last_frame_time, Some(1_000));
}

#[test]
fn tick_switches_to_the_source_of_the_active_clip() {
    let mut engine = playing_engine();
    engine.timeline_manager.add_clip(clip_of("b", "/media/b.mp4", 10 * SECOND, 5 * SECOND, 0, 1));
    engine.playback_state.current_time = 10 * SECOND - 10_000;
    let plan = engine.tick(16_000, 99_000_000);
    assert_eq!(plan, SyncPlan::Switch { source: "/media/b.mp4".to_string(), seek: None });
    // Nothing changes until the source is reported open.
    assert_eq!(engine.current_file.as_deref(), Some("/media/a.mp4"));
    engine.source_opened("/media/b.mp4", decoder_of("/media/b.proxy.mp4", 25, 1));
    assert_eq!(engine.current_file.as_deref(), Some("/media/b.mp4"));
    assert_eq!(engine.decoder.as_ref().map(|d| d.file_path.as_str()), Some("/media/b.proxy.mp4"));
    assert_eq!(engine.playback_state.current_time, 10 * SECOND + 6_000);
}

#[test]
fn switch_seeks_only_when_the_clip_is_entered_well_inside_its_media() {
    let mut at_start = playing_engine();
    at_start.timeline_manager.add_clip(clip_of("b", "/media/b.mp4", 10 * SECOND, SECOND, 0, 1));
    at_start.playback_state.current_time = 10 * SECOND;
    assert_eq!(
        at_start.tick(100_000, 0),
        SyncPlan::Switch { source: "/media/b.mp4".to_string(), seek: None }
    );
    let mut inside = playing_engine();
    inside.timeline_manager.add_clip(clip_of("b", "/media/b.mp4", 10 * SECOND, SECOND, 0, 1));
    inside.playback_state.current_time = 10 * SECOND;
    assert_eq!(
        inside.tick(100_001, 0),
        SyncPlan::Switch { source: "/media/b.mp4".to_string(), seek: Some(100_001) }
    );
    let mut offset = playing_engine();
    offset.timeline_manager.add_clip(clip_of("b", "/media/b.mp4", 10 * SECOND, SECOND, 50 * SECOND, 1));
    offset.playback_state.current_time = 10 * SECOND;
    assert_eq!(
        offset.tick(0, 0),
        SyncPlan::Switch { source: "/media/b.mp4".to_string(), seek: Some(50_000_000) }
    );
}

#[test]
fn tick_shows_the_clip_with_the_highest_z_index() {
    let mut engine = playing_engine();
    engine.timeline_manager.add_clip(clip_of("top", "/media/top.mp4", 0, 2 * SECOND, 0, 5));
    assert_eq!(
        engine.tick(16_000, 2_000),
        SyncPlan::Switch { source: "/media/top.mp4".to_string(), seek: None }
    );
}

#[test]
fn same_source_without_an_open_decoder_holds() {
    let mut engine = KinetixEngine::new();
    engine.timeline_manager.add_clip(clip_of("a", "/media/a.mp4", 0, 10 * SECOND, 0, 1));
    assert!(!engine.load_video("/media/a.mp4"));
    engine.play(0);
    assert_eq!(engine.tick(16_000, 99_000_000), SyncPlan::Hold);
    assert_eq!(engine.seek(3 * SECOND, 99_000_000), SyncPlan::Hold);
}

#[test]
fn seek_moves_the_playhead_and_forces_a_resync() {
    let mut engine = playing_engine();
    let plan = engine.seek(3 * SECOND, 77_000);
    assert_eq!(plan, SyncPlan::Resync { media_time: 3_000_000 });
    assert_eq!(engine.playback_state.current_time, 3 * SECOND);
    assert_eq!(engine.playback_state.last_frame_time, Some(77_000));
    assert!(engine.playback_state.is_playing);
}

#[test]
fn seek_maps_the_time_into_the_media_of_the_clip() {
    let mut engine = playing_engine();
    engine.timeline_manager.add_clip(clip_of("a", "/media/a.mp4", 2 * SECOND, 10 * SECOND, 7 * SECOND, 1));
    assert_eq!(engine.seek(3 * SECOND, 0), SyncPlan::Resync { media_time: 8_000_000 });
}

#[test]
fn seek_to_another_source_switches_and_seeks_even_at_its_start() {
    let mut engine = playing_engine();
    engine.timeline_manager.add_clip(clip_of("b", "/media/b.mp4", 10 * SECOND, SECOND, 0, 1));
    assert_eq!(
        engine.seek(10 * SECOND, 0),
        SyncPlan::Switch { source: "/media/b.mp4".to_string(), seek: Some(0) }
    );
}

#[test]
fn seek_outside_every_clip_holds_but_moves_the_playhead() {
    let mut engine = playing_engine();
    assert_eq!(engine.seek(60 * SECOND, 5), SyncPlan::Hold);
    assert_eq!(engine.playback_state.current_time, 60 * SECOND);
    assert_eq!(engine.playback_state.last_frame_time, Some(5));
}

#[test]
fn seek_works_while_stopped() {
    let mut engine = playing_engine();
    engine.pause();
    assert_eq!(engine.seek(SECOND, 9), SyncPlan::Resync { media_time: 1_000_000 });
    assert!(!engine.playback_state.is_playing);
}

#[test]
fn second_seek_to_the_same_time_asks_for_the_same_media_time() {
    let mut engine = playing_engine();
    let first = engine.seek(4 * SECOND, 10);
    let second = engine.seek(4 * SECOND, 20);
    assert_eq!(first, SyncPlan::Resync { media_time: 4_000_000 });
    assert_eq!(second, first);
    // Across a switch the second seek asks for what the first asked for.
    engine.timeline_manager.add_clip(clip_of("b", "/media/b.mp4", 10 * SECOND, 5 * SECOND, SECOND, 1));
    let first = engine.seek(12 * SECOND, 30);
    assert_eq!(
        first,
        SyncPlan::Switch { source: "/media/b.mp4".to_string(), seek: Some(3_000_000) }
    );
    engine.source_opened("/media/b.mp4", decoder_of("/media/b.mp4", 30, 1));
    assert_eq!(engine.seek(12 * SECOND, 40), SyncPlan::Resync { media_time: 3_000_000 });
    assert_eq!(engine.playback_state.current_time, 12 * SECOND);
}

#[test]
fn sync_without_force_goes_on_in_sequence() {
    let engine = playing_engine();
    assert_eq!(engine.sync_video_to_time(SECOND, false), SyncPlan::Advance);
    assert_eq!(
        engine.sync_video_to_time(SECOND, true),
        SyncPlan::Resync { media_time: 1_000_000 }
    );
    assert_eq!(engine.sync_video_to_time(-1, true), SyncPlan::Hold);
}

#[test]
fn load_without_a_presenter_only_records_the_source() {
    let mut engine = KinetixEngine::new();
    assert!(!engine.load_video("/media/a.mp4"));
    assert_eq!(engine.current_file.as_deref(), Some("/media/a.mp4"));
    assert!(engine.decoder.is_none());
    assert_eq!(engine.playback_state, PlaybackState::default());
}

#[test]
fn load_with_a_presenter_asks_to_open_and_changes_nothing_yet() {
    let mut engine = KinetixEngine::new();
    engine.presenter_attached();
    assert!(engine.presenter_ready);
    assert!(engine.load_video("/media/a.mp4"));
    assert!(engine.current_file.is_none());
    assert!(engine.decoder.is_none());
}

#[test]
fn loaded_video_moves_the_playhead_to_its_first_frame() {
    let mut engine = KinetixEngine::new();
    engine.presenter_attached();
    engine.playback_state.current_time = 9 * SECOND;
    engine.video_loaded("/media/a.mp4", decoder_of("/media/a.mp4", 30, 1), 41_708);
    assert_eq!(engine.current_file.as_deref(), Some("/media/a.mp4"));
    assert_eq!(engine.decoder, Some(decoder_of("/media/a.mp4", 30, 1)));
    assert_eq!(engine.playback_state.current_time, 41_708);
    assert!(!engine.playback_state.is_playing);
}
