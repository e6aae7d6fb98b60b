//! The playback clock and the decisions of the engine core.
//!
//! The engine owns the timeline, the playback state and the session of the
//! decoder that is open. It decides what has to happen at each command and
//! at each tick of the periodic driver, and returns it as a [`SyncPlan`]; the
//! program that embeds it opens files, runs the codec and hands pixels to the
//! presenter, and reports back what came of it. Times on the timeline and
//! inside media are in microseconds, and so is the wall clock, counted from
//! an origin of the driver's choice.

use crate::decoding::{Rational, VideoDecoder, MICROS_PER_SECOND};
use crate::timeline::{topmost_clip, ClipView, TimelineManager};
use vstd::prelude::*;

verus! {

/// A clip that becomes active this far into its media, or less, is played
/// from where the decoder stands after opening, without a seek.
pub const SWITCH_SEEK_THRESHOLD: i128 = 100_000;

/// The frame interval that is taken where the frame rate of the source is
/// unknown.
pub const NOMINAL_FRAME_INTERVAL: u64 = 33_000;

/// Whether playback runs, where the playhead stands, and when the last
/// frame was shown.
#[derive(Clone, Copy, Debug, PartialEq, Eq)]
pub struct PlaybackState {
    pub is_playing: bool,
    /// The playhead, in microseconds on the timeline.
    pub current_time: i64,
    /// The total length, in microseconds.
    pub duration: i128,
    /// The wall-clock time at which the last frame was shown. It paces
    /// decoding and is of no interest to observers.
    pub last_frame_time: Option<u64>,
}

impl Default for PlaybackState {
    fn default() -> (state: PlaybackState)
        ensures
            state == (PlaybackState {
                is_playing: false,
                current_time: 0,
                duration: 0,
                last_frame_time: None,
            }),
    {
        PlaybackState { is_playing: false, current_time: 0, duration: 0, last_frame_time: None }
    }
}

/// What the driver has to do after a command or a tick. Each plan holds at
/// most one opening of a decoder, one seek and one frame for the presenter,
/// in this order.
#[derive(Clone, Debug, PartialEq, Eq)]
pub enum SyncPlan {
    /// Nothing: the frame on display stays.
    Hold,
    /// Open a decoder for `source`; seek it to the media time `seek` where
    /// one is given; then decode one frame and present it.
    Switch { source: String, seek: Option<i128> },
    /// Seek the open decoder to `media_time`, then decode one frame and
    /// present it.
    Resync { media_time: i128 },
    /// Decode the next frame in sequence and present it.
    Advance,
}

/// The mathematical value of a [`SyncPlan`].
pub enum SyncPlanView {
    Hold,
    Switch { source: Seq<char>, seek: Option<int> },
    Resync { media_time: int },
    Advance,
}

impl View for SyncPlan {
    type V = SyncPlanView;

    open spec fn view(&self) -> SyncPlanView {
        match *self {
            SyncPlan::Hold => SyncPlanView::Hold,
            SyncPlan::Switch { source, seek } => SyncPlanView::Switch {
                source: source@,
                seek: match seek {
                    Some(t) => Some(t as int),
                    None => None,
                },
            },
            SyncPlan::Resync { media_time } => SyncPlanView::Resync {
                media_time: media_time as int,
            },
            SyncPlan::Advance => SyncPlanView::Advance,
        }
    }
}

impl SyncPlanView {
    /// The media time that the plan seeks to, if it seeks.
    pub open spec fn seek_time(self) -> Option<int> {
        match self {
            SyncPlanView::Switch { seek, .. } => seek,
            SyncPlanView::Resync { media_time } => Some(media_time),
            _ => None,
        }
    }
}

/// The time that has passed on the wall clock since the last frame was
/// shown: none where no frame was shown yet or the clock has gone back.
pub open spec fn elapsed_since(last_frame_time: Option<u64>, now: u64) -> int {
    match last_frame_time {
        Some(last) => if now >= last {
            now - last
        } else {
            0
        },
        None => 0,
    }
}

/// Whether the time since the last frame has reached the frame interval of
/// a source with this frame rate: `fps.den / fps.num` seconds, or the
/// nominal interval where the rate is not positive.
pub open spec fn frame_due(last_frame_time: Option<u64>, now: u64, fps: Rational) -> bool {
    if fps.num > 0 && fps.den > 0 {
        elapsed_since(last_frame_time, now) * fps.num >= fps.den * MICROS_PER_SECOND
    } else {
        elapsed_since(last_frame_time, now) >= NOMINAL_FRAME_INTERVAL
    }
}

/// What brings the decoder in line with the clip shown at `time`.
///
/// Without a clip nothing happens. A clip of another source than the open
/// one asks for a switch, with a seek where it is forced or the clip is
/// entered more than the threshold into its media. With the source
/// unchanged a forced sync seeks and an unforced one goes on in sequence,
/// each only where a decoder is open.
pub open spec fn sync_plan(
    shown: Option<ClipView>,
    current_source: Option<Seq<char>>,
    decoder_open: bool,
    time: int,
    force_seek: bool,
) -> SyncPlanView {
    match shown {
        None => SyncPlanView::Hold,
        Some(clip) => {
            let media_time = clip.media_time(time);
            if current_source != Some(clip.path) {
                SyncPlanView::Switch {
                    source: clip.path,
                    seek: if force_seek || media_time > SWITCH_SEEK_THRESHOLD {
                        Some(media_time)
                    } else {
                        None
                    },
                }
            } else if !decoder_open {
                SyncPlanView::Hold
            } else if force_seek {
                SyncPlanView::Resync { media_time }
            } else {
                SyncPlanView::Advance
            }
        },
    }
}

/// The engine core: the timeline, the playback state, and what is known of
/// the source that is open.
#[derive(Debug)]
pub struct KinetixEngine {
    /// The session of the open decoder.
    pub decoder: Option<VideoDecoder>,
    /// The source of the clip that was loaded last.
    pub current_file: Option<String>,
    pub playback_state: PlaybackState,
    pub timeline_manager: TimelineManager,
    /// Whether a presenter is attached, so that frames can be shown.
    pub presenter_ready: bool,
    /// The size of the display surface in pixels.
    pub width: u32,
    pub height: u32,
}

impl KinetixEngine {
    /// The source of the clip that was loaded last, as a value.
    pub open spec fn current_source(&self) -> Option<Seq<char>> {
        match self.current_file {
            Some(path) => Some(path@),
            None => None,
        }
    }

    /// The clip that is shown at `time`.
    pub open spec fn shown_clip(&self, time: int) -> Option<ClipView> {
        topmost_clip(
            self.timeline_manager.timeline.views(),
            self.timeline_manager.timeline.tracks@,
            time,
        )
    }

    /// What brings the decoder in line with the timeline at `time`.
    pub open spec fn plan_at(&self, time: int, force_seek: bool) -> SyncPlanView {
        sync_plan(
            self.shown_clip(time),
            self.current_source(),
            self.decoder is Some,
            time,
            force_seek,
        )
    }

    /// The engine is well formed when its timeline is and the decoder
    /// session, if there is one, is too.
    pub open spec fn wf(&self) -> bool {
        &&& self.timeline_manager.timeline.wf()
        &&& self.decoder is Some ==> self.decoder->0.wf()
    }

    /// An engine with a new timeline, stopped at time 0, without decoder or
    /// presenter, for a surface of 1920 by 1080 pixels.
    pub fn new() -> (engine: KinetixEngine)
        ensures
            engine.wf(),
            engine.decoder is None,
            engine.current_file is None,
            engine.playback_state == (PlaybackState {
                is_playing: false,
                current_time: 0,
                duration: 0,
                last_frame_time: None,
            }),
            engine.timeline_manager.timeline.clips@.len() == 0,
            engine.timeline_manager.timeline.duration == 0,
            engine.timeline_manager.timeline.tracks@.dom() =~= set![1i32, 2i32],
            !engine.presenter_ready,
            engine.width == 1920,
            engine.height == 1080,
    {
        KinetixEngine {
            decoder: None,
            current_file: None,
            playback_state: PlaybackState::default(),
            timeline_manager: TimelineManager::new(),
            presenter_ready: false,
            width: 1920,
            height: 1080,
        }
    }

    /// Whether `after` differs from the engine at most in the source that is
    /// recorded, the decoder session and the playback state.
    pub open spec fn same_setting(&self, after: &KinetixEngine) -> bool {
        &&& after.timeline_manager == self.timeline_manager
        &&& after.presenter_ready == self.presenter_ready
        &&& after.width == self.width
        &&& after.height == self.height
    }

    /// Records that a presenter is attached: from now on sources are opened
    /// and frames are shown.
    pub fn presenter_attached(&mut self)
        ensures
            *final(self) == (KinetixEngine { presenter_ready: true, ..*old(self) }),
    {
        self.presenter_ready = true;
    }

    /// Begins the loading of the source at `path` and says whether to open
    /// it. Without a presenter the source is only recorded as the current
    /// one, and nothing is to be opened.
    pub fn load_video(&mut self, path: &str) -> (open: bool)
        ensures
            open == old(self).presenter_ready,
            open ==> *final(self) == *old(self),
            !open ==> {
                &&& old(self).same_setting(final(self))
                &&& final(self).decoder == old(self).decoder
                &&& final(self).playback_state == old(self).playback_state
                &&& final(self).current_source() == Some(path@)
            },
    {
        if self.presenter_ready {
            true
        } else {
            self.current_file = Some(path.to_owned());
            false
        }
    }

    /// Ends a loading that [`load_video`](Self::load_video) began: the
    /// source at `path` was opened, `decoder` is its session, and its first
    /// frame, which is on display, has the time `first_frame_time`. The
    /// session takes the place of the one before, the source becomes the
    /// current one, and the playhead moves to the time of the frame.
    ///
    /// Where the source could not be opened or gave no frame, the loading
    /// ends without this call and the engine stays as it was.
    pub fn video_loaded(&mut self, path: &str, decoder: VideoDecoder, first_frame_time: i64)
        requires
            old(self).wf(),
            decoder.wf(),
        ensures
            final(self).wf(),
            old(self).same_setting(final(self)),
            final(self).decoder == Some(decoder),
            final(self).current_source() == Some(path@),
            final(self).playback_state == (PlaybackState {
                current_time: first_frame_time,
                ..old(self).playback_state
            }),
    {
        self.decoder = Some(decoder);
        self.current_file = Some(path.to_owned());
        self.playback_state.current_time = first_frame_time;
    }

    /// Ends the switch that a [`SyncPlan::Switch`] asked for: `source` was
    /// opened and `decoder` is its session. The session takes the place of
    /// the one before and the source becomes the current one; the playhead
    /// stays.
    ///
    /// Where the source could not be opened, the switch ends without this
    /// call, the engine stays as it was, and the next sync asks again.
    pub fn source_opened(&mut self, source: &str, decoder: VideoDecoder)
        requires
            old(self).wf(),
            decoder.wf(),
        ensures
            final(self).wf(),
            old(self).same_setting(final(self)),
            final(self).decoder == Some(decoder),
            final(self).current_source() == Some(source@),
            final(self).playback_state == old(self).playback_state,
    {
        self.decoder = Some(decoder);
        self.current_file = Some(source.to_owned());
    }

    /// Records that a frame asked for by a [`SyncPlan::Advance`] was shown
    /// at the wall-clock time `now`.
    pub fn frame_presented(&mut self, now: u64)
        ensures
            *final(self) == (KinetixEngine {
                playback_state: PlaybackState {
                    last_frame_time: Some(now),
                    ..old(self).playback_state
                },
                ..*old(self)
            }),
    {
        self.playback_state.last_frame_time = Some(now);
    }

    /// Starts playback at the wall-clock time `now`.
    pub fn play(&mut self, now: u64)
        ensures
            *final(self) == (KinetixEngine {
                playback_state: PlaybackState {
                    is_playing: true,
                    last_frame_time: Some(now),
                    ..old(self).playback_state
                },
                ..*old(self)
            }),
    {
        self.playback_state.is_playing = true;
        self.playback_state.last_frame_time = Some(now);
    }

    /// Stops playback.
    pub fn pause(&mut self)
        ensures
            *final(self) == (KinetixEngine {
                playback_state: PlaybackState {
                    is_playing: false,
                    last_frame_time: None,
                    ..old(self).playback_state
                },
                ..*old(self)
            }),
    {
        self.playback_state.is_playing = false;
        self.playback_state.last_frame_time = None;
    }

    /// Moves the playhead to `time` at the wall-clock time `now` and asks
    /// for a forced sync: the decoder seeks even in the middle of a clip.
    pub fn seek(&mut self, time: i64, now: u64) -> (plan: SyncPlan)
        requires
            old(self).wf(),
        ensures
            *final(self) == (KinetixEngine {
                playback_state: PlaybackState {
                    current_time: time,
                    last_frame_time: Some(now),
                    ..old(self).playback_state
                },
                ..*old(self)
            }),
            plan@ == old(self).plan_at(time as int, true),
    {
        self.playback_state.current_time = time;
        self.playback_state.last_frame_time = Some(now);
        self.sync_video_to_time(time, true)
    }

    /// What brings the decoder in line with the timeline at `time`.
    pub fn sync_video_to_time(&self, time: i64, force_seek: bool) -> (plan: SyncPlan)
        requires
            self.wf(),
        ensures
            plan@ == self.plan_at(time as int, force_seek),
    {
        match self.timeline_manager.get_active_clip(time) {
            None => SyncPlan::Hold,
            Some(clip) => {
                let needs_load = match &self.current_file {
                    Some(path) => !(*path == clip.path),
                    None => true,
                };
                let media_time = clip.get_media_time(time);
                if needs_load {
                    let seek = if force_seek || media_time > SWITCH_SEEK_THRESHOLD {
                        Some(media_time)
                    } else {
                        None
                    };
                    SyncPlan::Switch { source: clip.path.clone(), seek }
                } else if self.decoder.is_none() {
                    SyncPlan::Hold
                } else if force_seek {
                    SyncPlan::Resync { media_time }
                } else {
                    SyncPlan::Advance
                }
            },
        }
    }

    /// Whether the time since the last frame has reached the frame interval
    /// of the open source.
    fn frame_is_due(&self, now: u64) -> (due: bool)
        requires
            self.decoder is Some,
        ensures
            due == frame_due(self.playback_state.last_frame_time, now, self.decoder->0.fps),
    {
        let elapsed: u64 = match self.playback_state.last_frame_time {
            Some(last) => if now >= last {
                now - last
            } else {
                0
            },
            None => 0,
        };
        let fps = match &self.decoder {
            Some(decoder) => decoder.fps,
            None => Rational { num: 0, den: 0 },
        };
        if fps.num > 0 && fps.den > 0 {
            assert(0 <= elapsed * fps.num <= 0xffff_ffff_ffff_ffff * 0x7fff_ffff)
                by (nonlinear_arith)
                requires
                    0 <= elapsed <= 0xffff_ffff_ffff_ffff,
                    0 < fps.num <= 0x7fff_ffff,
            ;
            (elapsed as u128) * (fps.num as u128) >= (fps.den as u128) * (MICROS_PER_SECOND as u128)
        } else {
            elapsed >= NOMINAL_FRAME_INTERVAL
        }
    }

    /// Advances playback by `dt` microseconds at the wall-clock time `now`.
    ///
    /// While playback is stopped nothing changes and nothing is asked for.
    /// Otherwise the playhead advances and the decoder is brought in line
    /// with the clip that is shown there, without a forced seek; where the
    /// source stays the same, the next frame is asked for only once the
    /// frame interval of the source has passed since the last frame.
    pub fn tick(&mut self, dt: i64, now: u64) -> (plan: SyncPlan)
        requires
            old(self).wf(),
            old(self).playback_state.is_playing ==> i64::MIN <= old(
                self,
            ).playback_state.current_time + dt <= i64::MAX,
        ensures
            !old(self).playback_state.is_playing ==> *final(self) == *old(self) && plan@
                == SyncPlanView::Hold,
            old(self).playback_state.is_playing ==> {
                let time = old(self).playback_state.current_time + dt;
                &&& *final(self) == (KinetixEngine {
                    playback_state: PlaybackState {
                        current_time: time as i64,
                        ..old(self).playback_state
                    },
                    ..*old(self)
                })
                &&& plan@ == paced(
                    old(self).plan_at(time, false),
                    old(self).playback_state.last_frame_time,
                    now,
                    old(self).decoder,
                )
            },
    {
        if !self.playback_state.is_playing {
            return SyncPlan::Hold;
        }
        self.playback_state.current_time = self.playback_state.current_time + dt;
        let plan = self.sync_video_to_time(self.playback_state.current_time, false);
        match plan {
            SyncPlan::Advance => {
                if self.frame_is_due(now) {
                    SyncPlan::Advance
                } else {
                    SyncPlan::Hold
                }
            },
            other => other,
        }
    }
}

/// The plan of a tick: a frame in sequence is held back until it is due.
pub open spec fn paced(
    plan: SyncPlanView,
    last_frame_time: Option<u64>,
    now: u64,
    decoder: Option<VideoDecoder>,
) -> SyncPlanView {
    match plan {
        SyncPlanView::Advance => if decoder is Some && frame_due(
            last_frame_time,
            now,
            decoder->0.fps,
        ) {
            SyncPlanView::Advance
        } else {
            SyncPlanView::Hold
        },
        other => other,
    }
}

/// A second seek to the same time asks the decoder for the same media time
/// as the first.
///
/// `before` is the engine at the first seek and `after` the engine once the
/// plan of the first was carried out: the timeline is the same; where the
/// plan was a switch, either the source was opened and is now the current
/// one, or it was not and nothing changed; otherwise the source is the same
/// and a decoder is open as before.
pub proof fn lemma_seek_is_idempotent(before: KinetixEngine, after: KinetixEngine, time: int)
    requires
        after.timeline_manager == before.timeline_manager,
        match before.plan_at(time, true) {
            SyncPlanView::Switch { source, .. } => {
                ||| after.current_source() == Some(source) && after.decoder is Some
                ||| after.current_source() == before.current_source() && (after.decoder is Some)
                    == (before.decoder is Some)
            },
            _ => after.current_source() == before.current_source() && (after.decoder is Some) == (
            before.decoder is Some),
        },
    ensures
        after.plan_at(time, true).seek_time() == before.plan_at(time, true).seek_time(),
{
}

} // verus!
