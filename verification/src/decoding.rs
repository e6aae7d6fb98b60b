//! The decisions of a video decoder session.
//!
//! A [`VideoDecoder`] stands for one open media file. It does not read the
//! file: the program that embeds it reads packets and runs the codec, reports
//! each outcome as a [`DecodeEvent`], and does what the returned
//! [`DecodeStep`] says. Stream positions are in ticks of the stream's time
//! base, times in microseconds.
//!
//! A seek that fails leaves the session where it stood. The session keeps
//! the state in which the seek found it and the position of the frame that
//! decoding gave last; where the codec fails after the container was
//! positioned, the session sends the container back there before it
//! reports the failure.

use vstd::prelude::*;

verus! {

/// The number of microseconds in a second.
pub const MICROS_PER_SECOND: i64 = 1_000_000;

/// The number of frames that a seek may discard before it gives up rolling
/// forward.
pub const MAX_SKIP: u32 = 600;

/// The number of bytes of one pixel in a packed frame.
pub const BYTES_PER_PIXEL: usize = 4;

/// A ratio of two integers, as a container gives time bases and frame rates.
#[derive(Clone, Copy, Debug, PartialEq, Eq, Structural)]
pub struct Rational {
    pub num: i32,
    pub den: i32,
}

/// Why a decoder session could not go on.
#[derive(Clone, Copy, Debug, PartialEq, Eq, Structural)]
pub enum DecoderError {
    /// The file has no usable video stream.
    OpenError,
    /// The codec rejected its input.
    DecodeError,
    /// The input has ended and the codec holds no further frame.
    EndOfStream,
    /// A seek has failed: the container could not be positioned, or the
    /// codec failed while the seek rolled forward.
    SeekError,
}

/// Where a decoder session stands.
#[derive(Clone, Copy, Debug, PartialEq, Eq, Structural)]
pub enum DecoderState {
    /// Open, no frame asked for yet.
    Opened,
    /// Decoding frames in presentation order.
    Decoding,
    /// The input has ended and the codec was told so; one last frame may come.
    Flushing,
    /// Positioned on a keyframe, discarding frames up to the seek target.
    Seeking,
    /// A seek has failed after the container was positioned: the container
    /// goes back to where decoding stood.
    Restoring,
    /// Nothing more will be decoded until a seek.
    Exhausted,
}

/// What the container and the codec report.
#[derive(Clone, Copy, Debug, PartialEq, Eq)]
pub enum DecodeEvent {
    /// The container gave a packet of the stream with this index.
    Packet { stream_index: usize },
    /// The container has no more packets.
    EndOfInput,
    /// The codec gave a frame with this presentation timestamp, in ticks.
    Frame { pts: Option<i64> },
    /// The codec needs more input before it can give a frame.
    NoFrame,
    /// The codec rejected the packet or the end of input.
    CodecError,
    /// The container stands on the nearest keyframe at or before the
    /// position asked for, and the codec's buffers are dropped.
    Positioned,
    /// The container could not be positioned; it stands where it stood.
    SeekFailed,
}

/// What to do next with the container and the codec.
#[derive(Clone, Copy, Debug, PartialEq, Eq, Structural)]
pub enum DecodeStep {
    /// Position the container on the nearest keyframe at or before
    /// `target_ts`, drop the codec's buffers and report. A seek asks for
    /// this at its beginning, and again to go back where it has failed.
    SeekTo { target_ts: i64 },
    /// Read the next packet from the container and report it.
    ReadPacket,
    /// Feed the packet just read to the codec, ask it for a frame and report.
    SendPacket,
    /// Ask the codec for one more frame and report.
    ReceiveFrame,
    /// Tell the codec that the input has ended, ask it for a frame and report.
    Flush,
    /// The frame just reported is the result; `time` is its presentation
    /// time in microseconds.
    Deliver { time: i128 },
    /// The seek is complete.
    Done,
    /// The call fails.
    Fail { error: DecoderError },
}

/// What a container says of its best video stream.
#[derive(Clone, Copy, Debug, PartialEq, Eq)]
pub struct StreamInfo {
    pub index: usize,
    pub time_base: Rational,
    pub rate: Rational,
    pub width: u32,
    pub height: u32,
}

/// One open media file: which stream is decoded, its time base and nominal
/// frame rate, the frame size, and the state of the session.
#[derive(Clone, Debug, PartialEq, Eq)]
pub struct VideoDecoder {
    /// The file that is open.
    pub file_path: String,
    /// The nominal frame rate, in frames a second.
    pub fps: Rational,
    /// The index of the stream that is decoded.
    pub stream_index: usize,
    /// The length of one tick of the stream, in seconds.
    pub time_base: Rational,
    pub frame_width: u32,
    pub frame_height: u32,
    pub state: DecoderState,
    /// The stream position that the container was last asked to go to, in
    /// ticks.
    pub target_ts: i64,
    /// The number of frames that the last roll-forward has discarded.
    pub frames_decoded: u32,
    /// The state to which the session goes back where the seek under way
    /// fails.
    pub resume: DecoderState,
    /// The stream position of the frame that decoding gave last, in ticks:
    /// decoding goes on behind it. `None` before the first frame.
    pub position: Option<i64>,
}

/// The mathematical value of a [`VideoDecoder`].
pub struct DecoderView {
    pub file_path: Seq<char>,
    pub fps: Rational,
    pub stream_index: usize,
    pub time_base: Rational,
    pub frame_width: u32,
    pub frame_height: u32,
    pub state: DecoderState,
    pub target_ts: i64,
    pub frames_decoded: u32,
    pub resume: DecoderState,
    pub position: Option<i64>,
}

/// The offset of byte `col` of row `row` in a buffer whose rows begin
/// `row_len` bytes apart.
pub open spec fn byte_offset(row: int, row_len: int, col: int) -> int {
    row * row_len + col
}

/// The quotient of `a` by a positive `b`, rounded toward zero.
pub open spec fn trunc_div(a: int, b: int) -> int {
    if a >= 0 {
        a / b
    } else {
        -((-a) / b)
    }
}

/// The 64-bit value nearest to `x`.
pub open spec fn clamp_i64(x: int) -> int {
    if x < i64::MIN {
        i64::MIN as int
    } else if x > i64::MAX {
        i64::MAX as int
    } else {
        x
    }
}

/// The stream position, in ticks of `time_base`, of a time in microseconds:
/// rounded toward zero and held to the 64-bit range of stream positions.
pub open spec fn seek_target_of(timestamp: int, time_base: Rational) -> int {
    clamp_i64(trunc_div(timestamp * time_base.den, time_base.num * MICROS_PER_SECOND))
}

/// The time in microseconds of a presentation timestamp in ticks of
/// `time_base`, rounded toward zero. A frame without a timestamp counts as
/// one at tick 0.
pub open spec fn time_of_pts(pts: Option<i64>, time_base: Rational) -> int {
    let ticks = match pts {
        Some(p) => p as int,
        None => 0,
    };
    trunc_div(ticks * time_base.num * MICROS_PER_SECOND, time_base.den as int)
}

/// The stream position of a frame with this timestamp. A frame without a
/// timestamp counts as one at tick 0.
pub open spec fn ticks_of(pts: Option<i64>) -> i64 {
    match pts {
        Some(p) => p,
        None => 0,
    }
}

impl DecoderView {
    /// Whether a seek is under way: rolling forward, or going back after it
    /// has failed.
    pub open spec fn in_seek(self) -> bool {
        self.state == DecoderState::Seeking || self.state == DecoderState::Restoring
    }

    /// Whether the session stands between two calls: open, decoding or
    /// exhausted.
    pub open spec fn at_rest(self) -> bool {
        self.state == DecoderState::Opened || self.state == DecoderState::Decoding || self.state
            == DecoderState::Exhausted
    }

    /// The state to which a seek that is positioned now goes back where it
    /// fails: the state in which it found the session.
    pub open spec fn state_to_resume(self) -> DecoderState {
        match self.state {
            DecoderState::Opened => DecoderState::Opened,
            DecoderState::Decoding => DecoderState::Decoding,
            DecoderState::Flushing | DecoderState::Exhausted => DecoderState::Exhausted,
            DecoderState::Seeking | DecoderState::Restoring => self.resume,
        }
    }

    /// The stream position to which the container goes back after a failed
    /// seek: that of the frame that decoding gave last, or the least of all
    /// where it gave none.
    pub open spec fn restore_target(self) -> i64 {
        match self.position {
            Some(p) => p,
            None => i64::MIN,
        }
    }

    /// The session after `event`.
    pub open spec fn after(self, event: DecodeEvent) -> DecoderView {
        match event {
            DecodeEvent::Positioned => if self.state == DecoderState::Restoring {
                if self.position is None {
                    DecoderView { state: self.resume, ..self }
                } else {
                    DecoderView { frames_decoded: 0, ..self }
                }
            } else {
                DecoderView {
                    state: DecoderState::Seeking,
                    frames_decoded: 0,
                    resume: self.state_to_resume(),
                    ..self
                }
            },
            DecodeEvent::SeekFailed => if self.in_seek() {
                DecoderView { state: self.resume, ..self }
            } else {
                self
            },
            _ => match self.state {
                DecoderState::Exhausted => self,
                DecoderState::Flushing => DecoderView {
                    state: DecoderState::Exhausted,
                    position: match event {
                        DecodeEvent::Frame { pts } => Some(ticks_of(pts)),
                        _ => self.position,
                    },
                    ..self
                },
                DecoderState::Seeking => match event {
                    DecodeEvent::Frame { pts } => if self.reaches_target(pts) {
                        DecoderView {
                            state: DecoderState::Decoding,
                            position: Some(ticks_of(pts)),
                            ..self
                        }
                    } else if self.frames_decoded >= MAX_SKIP {
                        DecoderView {
                            state: DecoderState::Decoding,
                            frames_decoded: (self.frames_decoded + 1) as u32,
                            position: Some(ticks_of(pts)),
                            ..self
                        }
                    } else {
                        DecoderView { frames_decoded: (self.frames_decoded + 1) as u32, ..self }
                    },
                    DecodeEvent::EndOfInput => DecoderView {
                        state: DecoderState::Decoding,
                        position: Some(i64::MAX),
                        ..self
                    },
                    DecodeEvent::CodecError => if self.resume == DecoderState::Exhausted {
                        DecoderView { state: DecoderState::Exhausted, ..self }
                    } else {
                        DecoderView {
                            state: DecoderState::Restoring,
                            frames_decoded: 0,
                            target_ts: self.restore_target(),
                            ..self
                        }
                    },
                    _ => self,
                },
                DecoderState::Restoring => match event {
                    DecodeEvent::Frame { pts } => if self.reaches_target(pts) {
                        DecoderView { state: self.resume, ..self }
                    } else if self.frames_decoded >= MAX_SKIP {
                        DecoderView {
                            state: self.resume,
                            frames_decoded: (self.frames_decoded + 1) as u32,
                            ..self
                        }
                    } else {
                        DecoderView { frames_decoded: (self.frames_decoded + 1) as u32, ..self }
                    },
                    DecodeEvent::EndOfInput | DecodeEvent::CodecError => DecoderView {
                        state: self.resume,
                        ..self
                    },
                    _ => self,
                },
                DecoderState::Opened | DecoderState::Decoding => match event {
                    DecodeEvent::EndOfInput => DecoderView {
                        state: DecoderState::Flushing,
                        ..self
                    },
                    DecodeEvent::Frame { pts } => DecoderView {
                        state: DecoderState::Decoding,
                        position: Some(ticks_of(pts)),
                        ..self
                    },
                    _ => DecoderView { state: DecoderState::Decoding, ..self },
                },
            },
        }
    }

    /// What `event` asks for.
    pub open spec fn step_on(self, event: DecodeEvent) -> DecodeStep {
        match event {
            DecodeEvent::Positioned => if self.state == DecoderState::Restoring
                && self.position is None {
                DecodeStep::Fail { error: DecoderError::SeekError }
            } else {
                DecodeStep::ReadPacket
            },
            DecodeEvent::SeekFailed => DecodeStep::Fail { error: DecoderError::SeekError },
            _ => match self.state {
                DecoderState::Exhausted => DecodeStep::Fail { error: DecoderError::EndOfStream },
                DecoderState::Flushing => match event {
                    DecodeEvent::Frame { pts } => DecodeStep::Deliver {
                        time: time_of_pts(pts, self.time_base) as i128,
                    },
                    DecodeEvent::CodecError => DecodeStep::Fail {
                        error: DecoderError::DecodeError,
                    },
                    _ => DecodeStep::Fail { error: DecoderError::EndOfStream },
                },
                DecoderState::Seeking => match event {
                    DecodeEvent::Packet { stream_index } => self.step_on_packet(stream_index),
                    DecodeEvent::EndOfInput => DecodeStep::Done,
                    DecodeEvent::CodecError => if self.resume == DecoderState::Exhausted {
                        DecodeStep::Fail { error: DecoderError::SeekError }
                    } else {
                        DecodeStep::SeekTo { target_ts: self.restore_target() }
                    },
                    DecodeEvent::Frame { pts } => if self.reaches_target(pts) || self.frames_decoded
                        >= MAX_SKIP {
                        DecodeStep::Done
                    } else {
                        DecodeStep::ReceiveFrame
                    },
                    _ => DecodeStep::ReadPacket,
                },
                DecoderState::Restoring => match event {
                    DecodeEvent::Packet { stream_index } => self.step_on_packet(stream_index),
                    DecodeEvent::EndOfInput | DecodeEvent::CodecError => DecodeStep::Fail {
                        error: DecoderError::SeekError,
                    },
                    DecodeEvent::Frame { pts } => if self.reaches_target(pts) || self.frames_decoded
                        >= MAX_SKIP {
                        DecodeStep::Fail { error: DecoderError::SeekError }
                    } else {
                        DecodeStep::ReceiveFrame
                    },
                    _ => DecodeStep::ReadPacket,
                },
                DecoderState::Opened | DecoderState::Decoding => match event {
                    DecodeEvent::Packet { stream_index } => self.step_on_packet(stream_index),
                    DecodeEvent::EndOfInput => DecodeStep::Flush,
                    DecodeEvent::CodecError => DecodeStep::Fail {
                        error: DecoderError::DecodeError,
                    },
                    DecodeEvent::Frame { pts } => DecodeStep::Deliver {
                        time: time_of_pts(pts, self.time_base) as i128,
                    },
                    _ => DecodeStep::ReadPacket,
                },
            },
        }
    }

    /// A packet of the decoded stream goes to the codec, any other is passed
    /// over.
    pub open spec fn step_on_packet(self, stream_index: usize) -> DecodeStep {
        if stream_index == self.stream_index {
            DecodeStep::SendPacket
        } else {
            DecodeStep::ReadPacket
        }
    }

    /// Whether a frame with this timestamp lies at or after the position
    /// that the container was asked to go to.
    pub open spec fn reaches_target(self, pts: Option<i64>) -> bool {
        ticks_of(pts) >= self.target_ts
    }

    /// The session after each of `events` in turn.
    pub open spec fn after_all(self, events: Seq<DecodeEvent>) -> DecoderView
        decreases events.len(),
    {
        if events.len() == 0 {
            self
        } else {
            self.after_all(events.drop_last()).after(events.last())
        }
    }
}

impl View for VideoDecoder {
    type V = DecoderView;

    open spec fn view(&self) -> DecoderView {
        DecoderView {
            file_path: self.file_path@,
            fps: self.fps,
            stream_index: self.stream_index,
            time_base: self.time_base,
            frame_width: self.frame_width,
            frame_height: self.frame_height,
            state: self.state,
            target_ts: self.target_ts,
            frames_decoded: self.frames_decoded,
            resume: self.resume,
            position: self.position,
        }
    }
}

impl VideoDecoder {
    /// A session is well formed when its time base is positive, a seek
    /// under way has not discarded more frames than it may, and the state
    /// to go back to is one of rest.
    pub open spec fn wf(&self) -> bool {
        &&& self.time_base.num > 0
        &&& self.time_base.den > 0
        &&& self@.in_seek() ==> self.frames_decoded <= MAX_SKIP
        &&& self.resume == DecoderState::Opened || self.resume == DecoderState::Decoding
            || self.resume == DecoderState::Exhausted
    }

    /// Starts a session on the file at `path`, given what its container says
    /// of its best video stream. Fails where there is no video stream or its
    /// time base is not positive.
    pub fn new(path: &str, stream: Option<StreamInfo>) -> (opened: Result<VideoDecoder, DecoderError>)
        ensures
            opened is Ok <==> stream is Some && stream->0.time_base.num > 0
                && stream->0.time_base.den > 0,
            opened is Err ==> opened->Err_0 == DecoderError::OpenError,
            opened is Ok ==> opened->Ok_0.wf() && opened->Ok_0@ == (DecoderView {
                file_path: path@,
                fps: stream->0.rate,
                stream_index: stream->0.index,
                time_base: stream->0.time_base,
                frame_width: stream->0.width,
                frame_height: stream->0.height,
                state: DecoderState::Opened,
                target_ts: 0,
                frames_decoded: 0,
                resume: DecoderState::Opened,
                position: None,
            }),
    {
        match stream {
            Some(info) => {
                if info.time_base.num > 0 && info.time_base.den > 0 {
                    Ok(
                        VideoDecoder {
                            file_path: path.to_owned(),
                            fps: info.rate,
                            stream_index: info.index,
                            time_base: info.time_base,
                            frame_width: info.width,
                            frame_height: info.height,
                            state: DecoderState::Opened,
                            target_ts: 0,
                            frames_decoded: 0,
                            resume: DecoderState::Opened,
                            position: None,
                        },
                    )
                } else {
                    Err(DecoderError::OpenError)
                }
            },
            None => Err(DecoderError::OpenError),
        }
    }

    /// The width of a decoded frame in pixels.
    pub fn width(&self) -> (width: u32)
        ensures
            width == self.frame_width,
    {
        self.frame_width
    }

    /// The height of a decoded frame in pixels.
    pub fn height(&self) -> (height: u32)
        ensures
            height == self.frame_height,
    {
        self.frame_height
    }

    /// Begins the decoding of the next frame in presentation order. The
    /// first step is to read a packet, unless the session is exhausted.
    ///
    /// Packets of other streams are passed over; the first frame that the
    /// codec gives is delivered. When the input ends the codec is flushed and
    /// may give one last frame; after that the session is exhausted and every
    /// call fails with `EndOfStream` until the next seek.
    pub fn decode_next_frame(&mut self) -> (step: DecodeStep)
        requires
            old(self).wf(),
        ensures
            final(self).wf(),
            old(self).state == DecoderState::Exhausted ==> final(self)@ == old(self)@ && step == (
            DecodeStep::Fail { error: DecoderError::EndOfStream }),
            old(self).state != DecoderState::Exhausted ==> final(self)@ == (DecoderView {
                state: DecoderState::Decoding,
                ..old(self)@
            }) && step == DecodeStep::ReadPacket,
    {
        match self.state {
            DecoderState::Exhausted => DecodeStep::Fail { error: DecoderError::EndOfStream },
            _ => {
                self.state = DecoderState::Decoding;
                DecodeStep::ReadPacket
            },
        }
    }

    /// Begins a seek to `timestamp`, a time in microseconds: the first step
    /// is to position the container at [`seek_target`](Self::seek_target).
    ///
    /// Where that fails the seek fails with `SeekError` and the session
    /// stands where it stood. Otherwise the seek rolls forward: frames
    /// before the target are discarded, and the seek is complete at the
    /// first frame at or after the target, at the frame after the last that
    /// may be discarded, or when the input ends. The frame that completes
    /// it is consumed: the next decoded frame is the one after it.
    ///
    /// Where the codec fails while the seek rolls forward, the seek fails
    /// with `SeekError` too, and the session goes back to where it stood:
    /// unless it was exhausted, the container is positioned anew, on the
    /// frame that decoding gave last, before the failure is returned.
    pub fn seek(&mut self, timestamp: i128) -> (step: DecodeStep)
        requires
            old(self).wf(),
        ensures
            final(self).wf(),
            final(self)@ == (DecoderView {
                target_ts: seek_target_of(timestamp as int, old(self).time_base) as i64,
                ..old(self)@
            }),
            step == (DecodeStep::SeekTo { target_ts: final(self).target_ts }),
    {
        self.target_ts = self.seek_target(timestamp);
        DecodeStep::SeekTo { target_ts: self.target_ts }
    }

    /// Takes what the container or the codec reported and says what to do
    /// next.
    pub fn advance(&mut self, event: DecodeEvent) -> (step: DecodeStep)
        requires
            old(self).wf(),
        ensures
            final(self).wf(),
            final(self)@ == old(self)@.after(event),
            step == old(self)@.step_on(event),
    {
        match event {
            DecodeEvent::Positioned => {
                return self.positioned();
            },
            DecodeEvent::SeekFailed => {
                match self.state {
                    DecoderState::Seeking | DecoderState::Restoring => {
                        self.state = self.resume;
                    },
                    _ => {},
                }
                return DecodeStep::Fail { error: DecoderError::SeekError };
            },
            _ => {},
        }
        match self.state {
            DecoderState::Exhausted => DecodeStep::Fail { error: DecoderError::EndOfStream },
            DecoderState::Flushing => {
                self.state = DecoderState::Exhausted;
                match event {
                    DecodeEvent::Frame { pts } => {
                        self.position = Some(frame_ticks(pts));
                        DecodeStep::Deliver { time: self.pts_to_time(pts) }
                    },
                    DecodeEvent::CodecError => DecodeStep::Fail {
                        error: DecoderError::DecodeError,
                    },
                    _ => DecodeStep::Fail { error: DecoderError::EndOfStream },
                }
            },
            DecoderState::Seeking => match event {
                DecodeEvent::Packet { stream_index } => self.packet_step(stream_index),
                DecodeEvent::EndOfInput => {
                    self.state = DecoderState::Decoding;
                    self.position = Some(i64::MAX);
                    DecodeStep::Done
                },
                DecodeEvent::CodecError => self.go_back(),
                DecodeEvent::Frame { pts } => {
                    if self.discards(pts) {
                        DecodeStep::ReceiveFrame
                    } else {
                        self.state = DecoderState::Decoding;
                        self.position = Some(frame_ticks(pts));
                        DecodeStep::Done
                    }
                },
                _ => DecodeStep::ReadPacket,
            },
            DecoderState::Restoring => match event {
                DecodeEvent::Packet { stream_index } => self.packet_step(stream_index),
                DecodeEvent::EndOfInput | DecodeEvent::CodecError => {
                    self.state = self.resume;
                    DecodeStep::Fail { error: DecoderError::SeekError }
                },
                DecodeEvent::Frame { pts } => {
                    if self.discards(pts) {
                        DecodeStep::ReceiveFrame
                    } else {
                        self.state = self.resume;
                        DecodeStep::Fail { error: DecoderError::SeekError }
                    }
                },
                _ => DecodeStep::ReadPacket,
            },
            DecoderState::Opened | DecoderState::Decoding => {
                match event {
                    DecodeEvent::EndOfInput => {
                        self.state = DecoderState::Flushing;
                    },
                    _ => {
                        self.state = DecoderState::Decoding;
                    },
                }
                match event {
                    DecodeEvent::Packet { stream_index } => self.packet_step(stream_index),
                    DecodeEvent::EndOfInput => DecodeStep::Flush,
                    DecodeEvent::CodecError => DecodeStep::Fail {
                        error: DecoderError::DecodeError,
                    },
                    DecodeEvent::Frame { pts } => {
                        self.position = Some(frame_ticks(pts));
                        DecodeStep::Deliver { time: self.pts_to_time(pts) }
                    },
                    _ => DecodeStep::ReadPacket,
                }
            },
        }
    }

    /// The container is positioned: a seek begins to roll forward, and so
    /// does a way back, unless it leads to the start of the stream.
    fn positioned(&mut self) -> (step: DecodeStep)
        requires
            old(self).wf(),
        ensures
            final(self).wf(),
            final(self)@ == old(self)@.after(DecodeEvent::Positioned),
            step == old(self)@.step_on(DecodeEvent::Positioned),
    {
        match self.state {
            DecoderState::Restoring => {
                if self.position.is_none() {
                    self.state = self.resume;
                    DecodeStep::Fail { error: DecoderError::SeekError }
                } else {
                    self.frames_decoded = 0;
                    DecodeStep::ReadPacket
                }
            },
            DecoderState::Opened => {
                self.resume = DecoderState::Opened;
                self.roll_forward()
            },
            DecoderState::Decoding => {
                self.resume = DecoderState::Decoding;
                self.roll_forward()
            },
            DecoderState::Flushing | DecoderState::Exhausted => {
                self.resume = DecoderState::Exhausted;
                self.roll_forward()
            },
            DecoderState::Seeking => self.roll_forward(),
        }
    }

    fn roll_forward(&mut self) -> (step: DecodeStep)
        ensures
            *final(self) == (VideoDecoder {
                state: DecoderState::Seeking,
                frames_decoded: 0,
                ..*old(self)
            }),
            step == DecodeStep::ReadPacket,
    {
        self.state = DecoderState::Seeking;
        self.frames_decoded = 0;
        DecodeStep::ReadPacket
    }

    /// The codec has failed while the seek rolled forward: the session goes
    /// back to where it stood, by way of the container unless it was
    /// exhausted.
    fn go_back(&mut self) -> (step: DecodeStep)
        requires
            old(self).wf(),
            old(self).state == DecoderState::Seeking,
        ensures
            final(self).wf(),
            final(self)@ == old(self)@.after(DecodeEvent::CodecError),
            step == old(self)@.step_on(DecodeEvent::CodecError),
    {
        match self.resume {
            DecoderState::Exhausted => {
                self.state = DecoderState::Exhausted;
                DecodeStep::Fail { error: DecoderError::SeekError }
            },
            _ => {
                self.state = DecoderState::Restoring;
                self.frames_decoded = 0;
                self.target_ts = match self.position {
                    Some(p) => p,
                    None => i64::MIN,
                };
                DecodeStep::SeekTo { target_ts: self.target_ts }
            },
        }
    }

    /// Counts a frame of a roll-forward and says whether it is discarded
    /// and the roll-forward goes on: it lies before the target, and more
    /// frames may be discarded after it.
    fn discards(&mut self, pts: Option<i64>) -> (goes_on: bool)
        requires
            old(self).wf(),
            old(self)@.in_seek(),
        ensures
            goes_on == (!old(self)@.reaches_target(pts) && old(self).frames_decoded < MAX_SKIP),
            *final(self) == (VideoDecoder {
                frames_decoded: if old(self)@.reaches_target(pts) {
                    old(self).frames_decoded
                } else {
                    (old(self).frames_decoded + 1) as u32
                },
                ..*old(self)
            }),
    {
        if frame_ticks(pts) >= self.target_ts {
            false
        } else {
            self.frames_decoded = self.frames_decoded + 1;
            self.frames_decoded <= MAX_SKIP
        }
    }

    /// Copies the rows of a decoded frame into a tightly packed buffer.
    ///
    /// `data` holds `height` rows of `width` pixels of four bytes each; each
    /// row begins `stride` bytes after the one before, so a row may be
    /// followed by padding. The result holds the rows one after another
    /// without the padding.
    pub fn process_frame(data: &[u8], stride: usize, width: u32, height: u32) -> (pixels: Vec<u8>)
        requires
            height > 0 ==> (height - 1) * stride + BYTES_PER_PIXEL * width <= data@.len(),
            BYTES_PER_PIXEL * width * height <= usize::MAX,
        ensures
            pixels@.len() == BYTES_PER_PIXEL * width * height,
            forall|row: int, col: int|
                0 <= row < height && 0 <= col < BYTES_PER_PIXEL * width ==> #[trigger] pixels@[byte_offset(
                    row,
                    BYTES_PER_PIXEL * width,
                    col,
                )] == data@[byte_offset(row, stride as int, col)],
    {
        let mut pixels: Vec<u8> = Vec::new();
        if height == 0 {
            return pixels;
        }
        let rows: usize = height as usize;
        let data_len: usize = data.len();
        assert(BYTES_PER_PIXEL * width <= BYTES_PER_PIXEL * width * height) by (nonlinear_arith)
            requires
                height >= 1,
        ;
        let row_len: usize = BYTES_PER_PIXEL * (width as usize);
        let mut row: usize = 0;
        while row < rows
            invariant
                rows == height,
                row_len == BYTES_PER_PIXEL * width,
                row <= rows,
                data_len == data@.len(),
                (rows - 1) * stride + row_len <= data@.len(),
                row_len * rows <= usize::MAX,
                pixels@.len() == row * row_len,
                forall|r: int, c: int|
                    0 <= r < row && 0 <= c < row_len ==> #[trigger] pixels@[byte_offset(
                        r,
                        row_len as int,
                        c,
                    )] == data@[byte_offset(r, stride as int, c)],
            decreases rows - row,
        {
            assert(0 <= row * stride <= (rows - 1) * stride) by (nonlinear_arith)
                requires
                    0 <= row <= rows - 1,
                    0 <= stride,
            ;
            assert((row + 1) * row_len <= rows * row_len) by (nonlinear_arith)
                requires
                    row + 1 <= rows,
                    0 <= row_len,
            ;
            assert(rows * row_len == row_len * rows) by (nonlinear_arith);
            let start: usize = row * stride;
            let ghost before = pixels@;
            let mut col: usize = 0;
            while col < row_len
                invariant
                    col <= row_len,
                    start == row * stride,
                    data_len == data@.len(),
                    start + row_len <= data@.len(),
                    (row + 1) * row_len <= usize::MAX,
                    pixels@.len() == row * row_len + col,
                    forall|k: int| 0 <= k < before.len() ==> pixels@[k] == before[k],
                    before.len() == row * row_len,
                    forall|c: int|
                        0 <= c < col ==> #[trigger] pixels@[byte_offset(
                            row as int,
                            row_len as int,
                            c,
                        )] == data@[byte_offset(row as int, stride as int, c)],
                decreases row_len - col,
            {
                assert(row * row_len + row_len == (row + 1) * row_len) by (nonlinear_arith);
                pixels.push(data[start + col]);
                col = col + 1;
            }
            proof {
                assert forall|r: int, c: int|
                    0 <= r < row + 1 && 0 <= c < row_len implies #[trigger] pixels@[byte_offset(
                    r,
                    row_len as int,
                    c,
                )] == data@[byte_offset(r, stride as int, c)] by {
                    if r < row {
                        assert(r * row_len + c < row * row_len) by (nonlinear_arith)
                            requires
                                0 <= r < row,
                                0 <= c < row_len,
                        ;
                        assert(before[byte_offset(r, row_len as int, c)] == data@[byte_offset(
                            r,
                            stride as int,
                            c,
                        )]);
                    }
                }
                assert(row * row_len + row_len == (row + 1) * row_len) by (nonlinear_arith);
            }
            row = row + 1;
        }
        assert(rows * row_len == BYTES_PER_PIXEL * width * height) by (nonlinear_arith)
            requires
                rows == height,
                row_len == BYTES_PER_PIXEL * width,
        ;
        pixels
    }

    fn packet_step(&self, stream_index: usize) -> (step: DecodeStep)
        ensures
            step == self@.step_on_packet(stream_index),
    {
        if stream_index == self.stream_index {
            DecodeStep::SendPacket
        } else {
            DecodeStep::ReadPacket
        }
    }

    /// The time in microseconds of a frame's presentation timestamp.
    pub fn pts_to_time(&self, pts: Option<i64>) -> (time: i128)
        requires
            self.wf(),
        ensures
            time == time_of_pts(pts, self.time_base),
    {
        let ticks: i128 = match pts {
            Some(p) => p as i128,
            None => 0,
        };
        let num: i128 = self.time_base.num as i128;
        let den: i128 = self.time_base.den as i128;
        assert(-0x8000_0000_0000_0000 * 0x8000_0000 <= ticks * num <= 0x8000_0000_0000_0000
            * 0x8000_0000) by (nonlinear_arith)
            requires
                -0x8000_0000_0000_0000 <= ticks <= 0x8000_0000_0000_0000,
                0 < num <= 0x8000_0000,
        ;
        let scaled: i128 = ticks * num;
        assert(-0x8000_0000_0000_0000 * 0x8000_0000 * 1_000_000 <= scaled * 1_000_000
            <= 0x8000_0000_0000_0000 * 0x8000_0000 * 1_000_000) by (nonlinear_arith)
            requires
                -0x8000_0000_0000_0000 * 0x8000_0000 <= scaled <= 0x8000_0000_0000_0000
                    * 0x8000_0000,
        ;
        (scaled * (MICROS_PER_SECOND as i128)) / den
    }

    /// The stream position to seek to for a time in microseconds.
    pub fn seek_target(&self, timestamp: i128) -> (target_ts: i64)
        requires
            self.wf(),
        ensures
            target_ts == seek_target_of(timestamp as int, self.time_base),
    {
        let den: i128 = self.time_base.den as i128;
        let divisor: i128 = (self.time_base.num as i128) * (MICROS_PER_SECOND as i128);
        assert(0 < divisor < 0x8_0000_0000_0000) by (nonlinear_arith)
            requires
                divisor == self.time_base.num * 1_000_000,
                0 < self.time_base.num <= 0x7fff_ffff,
        ;
        match timestamp.checked_mul(den) {
            Some(scaled) => {
                let ticks: i128 = scaled / divisor;
                if ticks > i64::MAX as i128 {
                    i64::MAX
                } else if ticks < i64::MIN as i128 {
                    i64::MIN
                } else {
                    ticks as i64
                }
            },
            None => {
                proof {
                    lemma_overflowing_quotient(timestamp as int, den as int, divisor as int);
                }
                if timestamp > 0 {
                    i64::MAX
                } else {
                    i64::MIN
                }
            },
        }
    }
}

/// The stream position of a frame with this timestamp.
fn frame_ticks(pts: Option<i64>) -> (ticks: i64)
    ensures
        ticks == ticks_of(pts),
{
    match pts {
        Some(p) => p,
        None => 0,
    }
}

/// A product that leaves the 128-bit range, divided by less than 2^51, leaves
/// the 64-bit range on the side of the first factor's sign.
proof fn lemma_overflowing_quotient(t: int, den: int, divisor: int)
    requires
        0 < den,
        0 < divisor < 0x8_0000_0000_0000,
        t * den < i128::MIN || t * den > i128::MAX,
    ensures
        t > 0 ==> trunc_div(t * den, divisor) > i64::MAX,
        t <= 0 ==> trunc_div(t * den, divisor) < i64::MIN,
{
    let p = t * den;
    assert(t > 0 ==> p > 0) by (nonlinear_arith)
        requires
            p == t * den,
            0 < den,
    ;
    assert(t <= 0 ==> p <= 0) by (nonlinear_arith)
        requires
            p == t * den,
            0 < den,
    ;
    if t > 0 {
        assert(p / divisor > i64::MAX) by (nonlinear_arith)
            requires
                p > 0x7fff_ffff_ffff_ffff_ffff_ffff_ffff_ffff,
                0 < divisor < 0x8_0000_0000_0000,
        ;
    } else {
        let m = -p;
        assert(m / divisor > 0x8000_0000_0000_0000) by (nonlinear_arith)
            requires
                m > 0x7fff_ffff_ffff_ffff_ffff_ffff_ffff_ffff,
                0 < divisor < 0x8_0000_0000_0000,
        ;
    }
}

/// The events of a codec that gives one frame after another with these
/// timestamps.
pub open spec fn frame_events(pts: Seq<Option<i64>>) -> Seq<DecodeEvent> {
    pts.map_values(|p: Option<i64>| DecodeEvent::Frame { pts: p })
}

/// While a roll-forward is given frames it either has ended or has discarded
/// each of them.
proof fn lemma_roll_forward_progress(session: DecoderView, pts: Seq<Option<i64>>)
    requires
        session.state == DecoderState::Seeking,
        session.frames_decoded == 0,
    ensures
        ({
            let reached = session.after_all(frame_events(pts));
            reached.state == DecoderState::Decoding || (reached.state == DecoderState::Seeking
                && reached.frames_decoded == pts.len() && pts.len() <= MAX_SKIP)
        }),
    decreases pts.len(),
{
    if pts.len() > 0 {
        lemma_roll_forward_progress(session, pts.drop_last());
        assert(frame_events(pts).drop_last() =~= frame_events(pts.drop_last()));
        assert(frame_events(pts).last() == DecodeEvent::Frame { pts: pts.last() });
    }
}

/// The cost of a seek is bounded: a roll-forward that is given more frames
/// than it may discard has ended, whatever their timestamps.
pub proof fn lemma_roll_forward_is_bounded(session: DecoderView, pts: Seq<Option<i64>>)
    requires
        session.state == DecoderState::Seeking,
        session.frames_decoded == 0,
        pts.len() > MAX_SKIP,
    ensures
        session.after_all(frame_events(pts)).state == DecoderState::Decoding,
{
    lemma_roll_forward_progress(session, pts);
}

/// A roll-forward ends on the first frame at or after the target: as long as
/// every frame lies before the target and the cap is not reached, each is
/// discarded; a frame at or after the target ends it.
pub proof fn lemma_roll_forward_stops_at_target(session: DecoderView, pts: Option<i64>)
    requires
        session.state == DecoderState::Seeking,
        session.frames_decoded <= MAX_SKIP,
    ensures
        session.reaches_target(pts) ==> session.step_on(DecodeEvent::Frame { pts })
            == DecodeStep::Done && session.after(DecodeEvent::Frame { pts }).frames_decoded
            == session.frames_decoded,
        !session.reaches_target(pts) && session.frames_decoded < MAX_SKIP ==> session.step_on(
            DecodeEvent::Frame { pts },
        ) == DecodeStep::ReceiveFrame && session.after(DecodeEvent::Frame { pts }).state
            == DecoderState::Seeking,
{
}

/// A seek forgets where the session stood: two sessions on the same stream
/// that are positioned for the same target and given the same frames stand
/// alike afterwards, whatever they did before.
pub proof fn lemma_seek_forgets_the_past(
    one: DecoderView,
    other: DecoderView,
    pts: Seq<Option<i64>>,
)
    requires
        one.target_ts == other.target_ts,
        one.state != DecoderState::Restoring,
        other.state != DecoderState::Restoring,
    ensures
        ({
            let first = one.after(DecodeEvent::Positioned).after_all(frame_events(pts));
            let second = other.after(DecodeEvent::Positioned).after_all(frame_events(pts));
            &&& first.state == second.state
            &&& first.state != DecoderState::Restoring
            &&& first.frames_decoded == second.frames_decoded
            &&& first.target_ts == second.target_ts
            &&& first.state != DecoderState::Seeking ==> first.position == second.position
        }),
    decreases pts.len(),
{
    if pts.len() > 0 {
        lemma_seek_forgets_the_past(one, other, pts.drop_last());
        assert(frame_events(pts).drop_last() =~= frame_events(pts.drop_last()));
        assert(frame_events(pts).last() == DecodeEvent::Frame { pts: pts.last() });
    }
}

/// While a seek is under way, rolling forward or going back, the session
/// keeps the state in which the seek found it and the position at which
/// decoding stood.
proof fn lemma_seek_keeps_the_way_back(before: DecoderView, events: Seq<DecodeEvent>)
    requires
        before.at_rest(),
        forall|k: int|
            0 <= k <= events.len() ==> (#[trigger] before.after(DecodeEvent::Positioned).after_all(
                events.take(k),
            )).in_seek(),
    ensures
        ({
            let reached = before.after(DecodeEvent::Positioned).after_all(events);
            &&& reached.resume == before.state
            &&& reached.position == before.position
            &&& reached.file_path == before.file_path
            &&& reached.fps == before.fps
            &&& reached.stream_index == before.stream_index
            &&& reached.time_base == before.time_base
        }),
    decreases events.len(),
{
    let start = before.after(DecodeEvent::Positioned);
    if events.len() > 0 {
        let shorter = events.drop_last();
        assert forall|k: int| 0 <= k <= shorter.len() implies (#[trigger] start.after_all(
            shorter.take(k),
        )).in_seek() by {
            assert(shorter.take(k) =~= events.take(k));
        }
        lemma_seek_keeps_the_way_back(before, shorter);
        assert(events.take(events.len() as int) =~= events);
        assert(shorter.take(shorter.len() as int) =~= shorter);
        assert(start.after_all(events.take(events.len() as int)).in_seek());
        assert(start.after_all(shorter.take(shorter.len() as int)).in_seek());
    }
}

/// A seek that fails leaves the session where it stood. Whatever happened
/// while the seek was under way, once a step fails with `SeekError` the
/// session is in the state in which the seek found it, at the position at
/// which decoding stood, on the same file and stream.
pub proof fn lemma_failed_seek_restores(
    before: DecoderView,
    events: Seq<DecodeEvent>,
    last: DecodeEvent,
)
    requires
        before.at_rest(),
        forall|k: int|
            0 <= k <= events.len() ==> (#[trigger] before.after(DecodeEvent::Positioned).after_all(
                events.take(k),
            )).in_seek(),
        before.after(DecodeEvent::Positioned).after_all(events).step_on(last) == (DecodeStep::Fail {
            error: DecoderError::SeekError,
        }),
    ensures
        ({
            let ended = before.after(DecodeEvent::Positioned).after_all(events).after(last);
            &&& ended.state == before.state
            &&& ended.position == before.position
            &&& ended.file_path == before.file_path
            &&& ended.fps == before.fps
            &&& ended.stream_index == before.stream_index
            &&& ended.time_base == before.time_base
        }),
{
    lemma_seek_keeps_the_way_back(before, events);
    assert(events.take(events.len() as int) =~= events);
    assert(before.after(DecodeEvent::Positioned).after_all(events.take(events.len() as int)).in_seek());
}

/// A seek whose positioning fails leaves the session as it was, but for
/// the position that it asked for.
pub proof fn lemma_failed_positioning_changes_nothing(before: DecoderView)
    requires
        !before.in_seek(),
    ensures
        before.after(DecodeEvent::SeekFailed) == before,
        before.step_on(DecodeEvent::SeekFailed) == (DecodeStep::Fail {
            error: DecoderError::SeekError,
        }),
{
}

/// An exhausted session stays exhausted and gives no frame until a seek
/// positions the container anew.
pub proof fn lemma_exhausted_is_final(session: DecoderView, event: DecodeEvent)
    requires
        session.state == DecoderState::Exhausted,
        event != DecodeEvent::Positioned,
        event != DecodeEvent::SeekFailed,
    ensures
        session.after(event) == session,
        session.step_on(event) == (DecodeStep::Fail { error: DecoderError::EndOfStream }),
{
}

} // verus!
