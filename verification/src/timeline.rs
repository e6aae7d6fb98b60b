//! Tracks, clips and the resolution of the clips visible at a time.

use std::collections::HashMap;
use vstd::prelude::*;

verus! {

/// The length of an identifier that is generated for a clip without one.
pub const GENERATED_ID_LEN: usize = 36;

/// A placed reference to a time range of a source media file.
///
/// `start`, `duration` and `offset` are in microseconds. The clip covers the
/// half-open interval from `start` to `start + duration`.
#[derive(Clone, Debug, PartialEq, Eq)]
pub struct Clip {
    pub id: String,
    pub path: String,
    pub name: String,
    pub start: i64,
    pub duration: i64,
    pub offset: i64,
    pub track_id: i32,
    pub z_index: i32,
}

/// The mathematical value of a [`Clip`].
pub struct ClipView {
    pub id: Seq<char>,
    pub path: Seq<char>,
    pub name: Seq<char>,
    pub start: int,
    pub duration: int,
    pub offset: int,
    pub track_id: int,
    pub z_index: int,
}

impl ClipView {
    /// The first instant after the clip.
    pub open spec fn end(self) -> int {
        self.start + self.duration
    }

    /// Whether `time` lies in the clip's half-open extent.
    pub open spec fn is_active(self, time: int) -> bool {
        self.start <= time < self.end()
    }

    /// The position inside the source media that is shown at `global_time`.
    pub open spec fn media_time(self, global_time: int) -> int {
        (global_time - self.start) + self.offset
    }
}

impl View for Clip {
    type V = ClipView;

    open spec fn view(&self) -> ClipView {
        ClipView {
            id: self.id@,
            path: self.path@,
            name: self.name@,
            start: self.start as int,
            duration: self.duration as int,
            offset: self.offset as int,
            track_id: self.track_id as int,
            z_index: self.z_index as int,
        }
    }
}

impl Clip {
    /// Whether the clip covers `time`: the start is included, the end is not.
    pub fn is_active(&self, time: i64) -> (active: bool)
        ensures
            active == self@.is_active(time as int),
    {
        time >= self.start && (time as i128) < (self.start as i128) + (self.duration as i128)
    }

    /// Maps a time on the timeline to the position inside the source media.
    /// The result is exact: the sum of three 64-bit values fits in 128 bits.
    pub fn get_media_time(&self, global_time: i64) -> (media_time: i128)
        ensures
            media_time == self@.media_time(global_time as int),
    {
        ((global_time as i128) - (self.start as i128)) + (self.offset as i128)
    }

    /// The first instant after the clip, exact.
    pub fn end(&self) -> (end: i128)
        ensures
            end == self@.end(),
    {
        (self.start as i128) + (self.duration as i128)
    }
}

/// The media time of a clip never decreases as the time on the timeline grows.
pub proof fn lemma_media_time_monotonic(clip: ClipView, earlier: int, later: int)
    requires
        earlier <= later,
    ensures
        clip.media_time(earlier) <= clip.media_time(later),
{
}

/// A named lane that groups clips and carries the mute and lock flags.
#[derive(Clone, Debug, PartialEq, Eq)]
pub struct Track {
    pub id: i32,
    pub name: String,
    pub is_muted: bool,
    pub is_locked: bool,
}

/// Tracks and clips, and the time at which the last clip ends.
///
/// `clips` holds each clip once, in the order in which their identifiers
/// were first added. `duration` is in microseconds.
#[derive(Clone, Debug)]
pub struct Timeline {
    pub tracks: HashMap<i32, Track>,
    pub clips: Vec<Clip>,
    pub duration: i128,
}

/// The values of the clips of a sequence, in its order.
pub open spec fn clip_views(clips: Seq<Clip>) -> Seq<ClipView> {
    clips.map_values(|c: Clip| c@)
}

/// No two clips of the sequence share an identifier.
pub open spec fn distinct_ids(clips: Seq<ClipView>) -> bool {
    forall|i: int, j: int| 0 <= i < j < clips.len() ==> clips[i].id != clips[j].id
}

/// `duration` is the greatest end of a clip of the sequence, or 0 where it
/// has none.
pub open spec fn is_total_duration(clips: Seq<ClipView>, duration: int) -> bool {
    if clips.len() == 0 {
        duration == 0
    } else {
        &&& exists|i: int| 0 <= i < clips.len() && (#[trigger] clips[i]).end() == duration
        &&& forall|j: int| 0 <= j < clips.len() ==> (#[trigger] clips[j]).end() <= duration
    }
}

/// Whether the sequence holds a clip with this identifier.
pub open spec fn has_id(clips: Seq<ClipView>, id: Seq<char>) -> bool {
    exists|i: int| 0 <= i < clips.len() && (#[trigger] clips[i]).id == id
}

/// The place of the clip with this identifier.
pub open spec fn index_of_id(clips: Seq<ClipView>, id: Seq<char>) -> int {
    choose|i: int| 0 <= i < clips.len() && (#[trigger] clips[i]).id == id
}

/// The clips as a mapping from identifier to clip.
pub open spec fn clip_map(clips: Seq<ClipView>) -> Map<Seq<char>, ClipView> {
    Map::new(|id: Seq<char>| has_id(clips, id), |id: Seq<char>| clips[index_of_id(clips, id)])
}

/// Whether `c` is a digit of a number written to base 16 in lower case.
pub open spec fn is_lower_hex_digit(c: char) -> bool {
    ('0' <= c && c <= '9') || ('a' <= c && c <= 'f')
}

/// Whether `id` has the shape of a universally unique identifier in its
/// hyphenated form: 32 lower-case hexadecimal digits in groups of 8, 4, 4,
/// 4 and 12, with a hyphen between two groups.
pub open spec fn is_uuid_shaped(id: Seq<char>) -> bool {
    &&& id.len() == GENERATED_ID_LEN
    &&& forall|i: int|
        0 <= i < id.len() ==> if i == 8 || i == 13 || i == 18 || i == 23 {
            #[trigger] id[i] == '-'
        } else {
            is_lower_hex_digit(id[i])
        }
}

/// The clip as it is stored: one without an identifier gets `generated_id`,
/// one whose z-index is 0 gets that of its track.
pub open spec fn stored_clip(clip: ClipView, generated_id: Seq<char>) -> ClipView {
    ClipView {
        id: if clip.id.len() == 0 {
            generated_id
        } else {
            clip.id
        },
        z_index: if clip.z_index == 0 {
            clip.track_id
        } else {
            clip.z_index
        },
        ..clip
    }
}

/// The clips after `clip` is put among them: in the place of the clip with
/// its identifier, or at the end where there is none.
pub open spec fn with_clip(clips: Seq<ClipView>, clip: ClipView) -> Seq<ClipView> {
    if has_id(clips, clip.id) {
        clips.update(index_of_id(clips, clip.id), clip)
    } else {
        clips.push(clip)
    }
}

/// The clips without the one with this identifier.
pub open spec fn without_clip(clips: Seq<ClipView>, id: Seq<char>) -> Seq<ClipView> {
    if has_id(clips, id) {
        clips.remove(index_of_id(clips, id))
    } else {
        clips
    }
}

/// A clip is shown unless its track exists and is muted.
pub open spec fn track_visible(tracks: Map<i32, Track>, track_id: int) -> bool {
    tracks.contains_key(track_id as i32) ==> !tracks[track_id as i32].is_muted
}

/// Whether a clip is shown at `time`: it covers the time and its track is
/// not muted.
pub open spec fn is_shown(clip: ClipView, tracks: Map<i32, Track>, time: int) -> bool {
    clip.is_active(time) && track_visible(tracks, clip.track_id)
}

/// Whether the clip at place `i` is the topmost of those shown at `time`:
/// none that is shown has a greater z-index, and of those with the same
/// z-index it is the last in storage order.
pub open spec fn is_topmost(clips: Seq<ClipView>, tracks: Map<i32, Track>, time: int, i: int) -> bool {
    &&& 0 <= i < clips.len()
    &&& is_shown(clips[i], tracks, time)
    &&& forall|j: int|
        0 <= j < clips.len() && is_shown(#[trigger] clips[j], tracks, time) ==> clips[j].z_index
            < clips[i].z_index || (clips[j].z_index == clips[i].z_index && j <= i)
}

/// The clip that is shown on top at `time`, if any clip is shown.
pub open spec fn topmost_clip(clips: Seq<ClipView>, tracks: Map<i32, Track>, time: int) -> Option<
    ClipView,
> {
    if exists|i: int| is_topmost(clips, tracks, time, i) {
        Some(clips[choose|i: int| is_topmost(clips, tracks, time, i)])
    } else {
        None
    }
}

/// Among clips of which one is shown there is a topmost.
proof fn lemma_topmost_exists(clips: Seq<ClipView>, tracks: Map<i32, Track>, time: int, at: int)
    requires
        0 <= at < clips.len(),
        is_shown(clips[at], tracks, time),
    ensures
        exists|i: int| is_topmost(clips, tracks, time, i),
    decreases clips.len(),
{
    let last = clips.len() - 1;
    let shorter = clips.drop_last();
    assert forall|j: int| 0 <= j < last implies shorter[j] == #[trigger] clips[j] by {}
    let earlier = choose|j: int| 0 <= j < last && is_shown(#[trigger] clips[j], tracks, time);
    if 0 <= earlier < last && is_shown(clips[earlier], tracks, time) {
        lemma_topmost_exists(shorter, tracks, time, earlier);
        let best = choose|i: int| is_topmost(shorter, tracks, time, i);
        if is_shown(clips[last], tracks, time) && clips[last].z_index >= clips[best].z_index {
            assert(is_topmost(clips, tracks, time, last));
        } else {
            assert(is_topmost(clips, tracks, time, best));
        }
    } else {
        assert(at == last);
        assert(is_topmost(clips, tracks, time, last));
    }
}

/// At most one clip is the topmost, and there is one exactly when a clip is
/// shown.
pub proof fn lemma_topmost_clip(clips: Seq<ClipView>, tracks: Map<i32, Track>, time: int)
    ensures
        forall|i: int, j: int|
            is_topmost(clips, tracks, time, i) && is_topmost(clips, tracks, time, j) ==> i == j,
        topmost_clip(clips, tracks, time) is None <==> forall|i: int|
            0 <= i < clips.len() ==> !is_shown(#[trigger] clips[i], tracks, time),
{
    assert forall|i: int, j: int|
        is_topmost(clips, tracks, time, i) && is_topmost(clips, tracks, time, j) implies i
        == j by {
        assert(is_shown(clips[i], tracks, time) && is_shown(clips[j], tracks, time));
    }
    if topmost_clip(clips, tracks, time) is None {
        assert forall|i: int| 0 <= i < clips.len() implies !is_shown(
            #[trigger] clips[i],
            tracks,
            time,
        ) by {
            if is_shown(clips[i], tracks, time) {
                lemma_topmost_exists(clips, tracks, time, i);
            }
        }
    } else {
        let best = choose|i: int| is_topmost(clips, tracks, time, i);
        assert(is_shown(clips[best], tracks, time));
    }
}

/// The clips after each of `added` is put among them in turn, the `k`-th
/// under `generated[k]` if it has no identifier of its own.
pub open spec fn with_clips(
    clips: Seq<ClipView>,
    added: Seq<ClipView>,
    generated: Seq<Seq<char>>,
) -> Seq<ClipView>
    decreases added.len(),
{
    if added.len() == 0 {
        clips
    } else {
        with_clip(
            with_clips(clips, added.drop_last(), generated.drop_last()),
            stored_clip(added.last(), generated.last()),
        )
    }
}

/// Among clips without a shared identifier, each is found under its own.
pub proof fn lemma_index_of_id(clips: Seq<ClipView>, i: int)
    requires
        distinct_ids(clips),
        0 <= i < clips.len(),
    ensures
        has_id(clips, clips[i].id),
        index_of_id(clips, clips[i].id) == i,
        clip_map(clips).contains_key(clips[i].id),
        clip_map(clips)[clips[i].id] == clips[i],
{
    let j = index_of_id(clips, clips[i].id);
    assert(0 <= j < clips.len() && clips[j].id == clips[i].id);
}

impl Timeline {
    /// The values of the clips, in storage order.
    pub open spec fn views(&self) -> Seq<ClipView> {
        clip_views(self.clips@)
    }

    /// The clips as a mapping from identifier to clip.
    pub open spec fn clip_map(&self) -> Map<Seq<char>, ClipView> {
        clip_map(self.views())
    }

    /// A timeline is well formed when no two clips share an identifier and
    /// `duration` is the greatest end of a clip, or 0 without clips.
    pub open spec fn wf(&self) -> bool {
        &&& distinct_ids(self.views())
        &&& is_total_duration(self.views(), self.duration as int)
    }

    /// A timeline without clips, with the two video tracks `1` and `2`,
    /// neither muted nor locked.
    pub fn new() -> (timeline: Timeline)
        ensures
            timeline.wf(),
            timeline.clips@.len() == 0,
            timeline.duration == 0,
            timeline.tracks@.dom() =~= set![1i32, 2i32],
            forall|id: i32|
                id == 1 || id == 2 ==> {
                    let track = #[trigger] timeline.tracks@[id];
                    track.id == id && !track.is_muted && !track.is_locked
                },
            timeline.tracks@[1].name@ == "Video 1"@,
            timeline.tracks@[2].name@ == "Video 2"@,
    {
        broadcast use vstd::std_specs::hash::group_hash_axioms;

        let mut tracks: HashMap<i32, Track> = HashMap::new();
        tracks.insert(
            1,
            Track { id: 1, name: "Video 1".to_owned(), is_muted: false, is_locked: false },
        );
        tracks.insert(
            2,
            Track { id: 2, name: "Video 2".to_owned(), is_muted: false, is_locked: false },
        );
        Timeline { tracks, clips: Vec::new(), duration: 0 }
    }
}

/// Owns a timeline and keeps it well formed.
#[derive(Debug)]
pub struct TimelineManager {
    pub timeline: Timeline,
}

/// Calls `uuid::Uuid::new_v4` for a random identifier and renders it with
/// its `Display` implementation, which writes the hyphenated form in lower
/// case: 32 hexadecimal digits in five groups with hyphens between them,
/// 36 characters in all. Which identifier comes out is left open.
#[verifier::external_body]
fn generate_clip_id() -> (id: String)
    ensures
        is_uuid_shaped(id@),
{
    uuid::Uuid::new_v4().to_string()
}

impl TimelineManager {
    /// A manager of a new timeline.
    pub fn new() -> (manager: TimelineManager)
        ensures
            manager.timeline.wf(),
            manager.timeline.clips@.len() == 0,
            manager.timeline.duration == 0,
            manager.timeline.tracks@.dom() =~= set![1i32, 2i32],
            forall|id: i32|
                id == 1 || id == 2 ==> {
                    let track = #[trigger] manager.timeline.tracks@[id];
                    track.id == id && !track.is_muted && !track.is_locked
                },
            manager.timeline.tracks@[1].name@ == "Video 1"@,
            manager.timeline.tracks@[2].name@ == "Video 2"@,
    {
        TimelineManager { timeline: Timeline::new() }
    }

    /// The place of the clip with this identifier, if there is one.
    fn find_clip(&self, id: &String) -> (found: Option<usize>)
        ensures
            match found {
                Some(i) => i < self.timeline.clips@.len() && self.timeline.views()[i as int].id
                    == id@,
                None => !has_id(self.timeline.views(), id@),
            },
    {
        let mut i: usize = 0;
        while i < self.timeline.clips.len()
            invariant
                i <= self.timeline.clips@.len(),
                forall|k: int| 0 <= k < i ==> (#[trigger] self.timeline.views()[k]).id != id@,
            decreases self.timeline.clips@.len() - i,
        {
            if self.timeline.clips[i].id == *id {
                return Some(i);
            }
            i = i + 1;
        }
        None
    }

    /// Sets `duration` to the greatest end of a clip, or to 0 without clips.
    fn recalculate_duration(&mut self)
        ensures
            final(self).timeline.clips == old(self).timeline.clips,
            final(self).timeline.tracks == old(self).timeline.tracks,
            is_total_duration(final(self).timeline.views(), final(self).timeline.duration as int),
    {
        let mut max_end: i128 = 0;
        let mut i: usize = 0;
        while i < self.timeline.clips.len()
            invariant
                i <= self.timeline.clips@.len(),
                is_total_duration(self.timeline.views().take(i as int), max_end as int),
            decreases self.timeline.clips@.len() - i,
        {
            let end = self.timeline.clips[i].end();
            let ghost seen = self.timeline.views().take(i as int);
            let ghost next = self.timeline.views().take(i + 1);
            proof {
                assert(next[i as int].end() == end);
                assert forall|j: int| 0 <= j < i implies next[j] == seen[j] by {}
            }
            if i == 0 || end > max_end {
                max_end = end;
                assert(is_total_duration(next, max_end as int)) by {
                    assert forall|j: int| 0 <= j < next.len() implies (#[trigger] next[j]).end()
                        <= max_end by {
                        if j < i {
                            assert(seen[j].end() <= max_end);
                        }
                    }
                }
            } else {
                assert(is_total_duration(next, max_end as int)) by {
                    let k = choose|k: int| 0 <= k < seen.len() && (#[trigger] seen[k]).end()
                        == max_end;
                    assert(next[k].end() == max_end);
                    assert forall|j: int| 0 <= j < next.len() implies (#[trigger] next[j]).end()
                        <= max_end by {
                        if j < i {
                            assert(seen[j].end() <= max_end);
                        }
                    }
                }
            }
            i = i + 1;
        }
        assert(self.timeline.views().take(i as int) =~= self.timeline.views());
        self.timeline.duration = max_end;
    }

    /// Puts `clip` into the timeline and sets `duration` anew.
    ///
    /// A clip without an identifier is stored under a generated one in the
    /// shape of a UUID, and a clip whose z-index is 0 gets that of its track. A
    /// clip whose identifier is in use takes the place of the one that has
    /// it; clips may overlap.
    pub fn add_clip(&mut self, clip: Clip)
        requires
            old(self).timeline.wf(),
        ensures
            final(self).timeline.wf(),
            final(self).timeline.tracks == old(self).timeline.tracks,
            is_total_duration(final(self).timeline.views(), final(self).timeline.duration as int),
            exists|generated_id: Seq<char>|
                {
                    let stored = #[trigger] stored_clip(clip@, generated_id);
                    &&& is_uuid_shaped(generated_id)
                    &&& final(self).timeline.views() == with_clip(
                        old(self).timeline.views(),
                        stored,
                    )
                    &&& final(self).timeline.clip_map() == old(self).timeline.clip_map().insert(
                        stored.id,
                        stored,
                    )
                },
    {
        if clip.id.as_str().is_empty() {
            let generated_id = generate_clip_id();
            assert(stored_clip(clip@, generated_id@).id == generated_id@);
            self.add_clip_with_id(clip, generated_id);
        } else {
            let ghost unused: Seq<char> = Seq::new(
                GENERATED_ID_LEN as nat,
                |i: int|
                    if i == 8 || i == 13 || i == 18 || i == 23 {
                        '-'
                    } else {
                        '0'
                    },
            );
            assert(is_uuid_shaped(unused));
            assert(stored_clip(clip@, unused) == stored_clip(clip@, Seq::<char>::empty()));
            self.add_clip_with_id(clip, String::new());
        }
    }

    /// Puts `clip` into the timeline, under `generated_id` if it has no
    /// identifier of its own, and sets `duration` anew.
    pub fn add_clip_with_id(&mut self, clip: Clip, generated_id: String)
        requires
            old(self).timeline.wf(),
        ensures
            final(self).timeline.wf(),
            final(self).timeline.tracks == old(self).timeline.tracks,
            is_total_duration(final(self).timeline.views(), final(self).timeline.duration as int),
            final(self).timeline.views() == with_clip(
                old(self).timeline.views(),
                stored_clip(clip@, generated_id@),
            ),
            final(self).timeline.clip_map() == old(self).timeline.clip_map().insert(
                stored_clip(clip@, generated_id@).id,
                stored_clip(clip@, generated_id@),
            ),
    {
        let ghost before = self.timeline.views();
        let ghost stored = stored_clip(clip@, generated_id@);
        let mut clip = clip;
        if clip.id.as_str().is_empty() {
            clip.id = generated_id;
        }
        if clip.z_index == 0 {
            clip.z_index = clip.track_id;
        }
        assert(clip@ == stored);
        match self.find_clip(&clip.id) {
            Some(i) => {
                proof {
                    lemma_index_of_id(before, i as int);
                }
                self.timeline.clips.set(i, clip);
                assert(self.timeline.views() =~= before.update(i as int, stored));
            },
            None => {
                self.timeline.clips.push(clip);
                assert(self.timeline.views() =~= before.push(stored));
            },
        }
        proof {
            lemma_with_clip(before, stored);
        }
        self.recalculate_duration();
    }

    /// Whether clips on this track are shown: the track is not muted, or
    /// there is no such track.
    fn track_is_visible(&self, track_id: i32) -> (visible: bool)
        ensures
            visible == track_visible(self.timeline.tracks@, track_id as int),
    {
        broadcast use vstd::std_specs::hash::group_hash_axioms;

        match self.timeline.tracks.get(&track_id) {
            Some(track) => !track.is_muted,
            None => true,
        }
    }

    /// The clips that are shown at `time`, lowest z-index first.
    ///
    /// A clip is shown when it covers `time`, its start included and its end
    /// not, and its track is not muted; a clip on a track that does not
    /// exist is shown. The order among clips of equal z-index is left open.
    pub fn get_active_clips(&self, time: i64) -> (active: Vec<&Clip>)
        requires
            self.timeline.wf(),
        ensures
            forall|k: int|
                0 <= k < active@.len() ==> {
                    let clip = (#[trigger] active@[k])@;
                    &&& self.timeline.clip_map().contains_key(clip.id)
                    &&& self.timeline.clip_map()[clip.id] == clip
                    &&& clip.start <= time < clip.start + clip.duration
                    &&& track_visible(self.timeline.tracks@, clip.track_id)
                },
            forall|id: Seq<char>|
                self.timeline.clip_map().contains_key(id) && is_shown(
                    self.timeline.clip_map()[id],
                    self.timeline.tracks@,
                    time as int,
                ) ==> exists|k: int| 0 <= k < active@.len() && (#[trigger] active@[k])@.id == id,
            forall|i: int, j: int|
                0 <= i < j < active@.len() ==> active@[i]@.id != active@[j]@.id,
            forall|i: int, j: int|
                0 <= i <= j < active@.len() ==> active@[i]@.z_index <= active@[j]@.z_index,
    {
        let ghost views = self.timeline.views();
        let ghost tracks = self.timeline.tracks@;
        let mut active: Vec<&Clip> = Vec::new();
        let ghost mut places: Seq<int> = Seq::empty();
        let mut i: usize = 0;
        while i < self.timeline.clips.len()
            invariant
                i <= self.timeline.clips@.len(),
                views == self.timeline.views(),
                tracks == self.timeline.tracks@,
                places_cover(views, tracks, time as int, active@, places, i as int),
            decreases self.timeline.clips@.len() - i,
        {
            let clip = &self.timeline.clips[i];
            if clip.is_active(time) && self.track_is_visible(clip.track_id) {
                let ghost before = places;
                active.push(clip);
                proof {
                    places = places.push(i as int);
                    assert forall|j: int|
                        0 <= j < i + 1 && is_shown(
                            #[trigger] views[j],
                            tracks,
                            time as int,
                        ) implies places.contains(j) by {
                        if j < i {
                            let k = choose|k: int| 0 <= k < before.len() && before[k] == j;
                            assert(places[k] == j);
                        } else {
                            assert(places[before.len() as int] == j);
                        }
                    }
                }
            }
            i = i + 1;
        }
        let count: usize = active.len();
        let mut sorted: usize = 1;
        while sorted < count
            invariant
                count == active@.len(),
                views == self.timeline.views(),
                tracks == self.timeline.tracks@,
                places_cover(views, tracks, time as int, active@, places, views.len() as int),
                forall|a: int, b: int|
                    0 <= a <= b < sorted && b < active@.len() ==> active@[a]@.z_index
                        <= active@[b]@.z_index,
            decreases count - sorted,
        {
            let mut j: usize = sorted;
            while j > 0 && active[j - 1].z_index > active[j].z_index
                invariant
                    count == active@.len(),
                    j <= sorted < count,
                    places_cover(views, tracks, time as int, active@, places, views.len() as int),
                    forall|a: int, b: int|
                        0 <= a <= b <= sorted && a != j && b != j ==> active@[a]@.z_index
                            <= active@[b]@.z_index,
                    forall|b: int|
                        j < b <= sorted ==> active@[j as int]@.z_index <= active@[b]@.z_index,
                decreases j,
            {
                let lower = active[j - 1];
                let upper = active[j];
                let ghost before = places;
                active.set(j - 1, upper);
                active.set(j, lower);
                proof {
                    places = places.update(j - 1, before[j as int]).update(
                        j as int,
                        before[j - 1],
                    );
                    assert forall|p: int| before.contains(p) implies places.contains(p) by {
                        let k = choose|k: int| 0 <= k < before.len() && before[k] == p;
                        let to = if k == j {
                            j - 1
                        } else if k == j - 1 {
                            j as int
                        } else {
                            k
                        };
                        assert(places[to] == p);
                    }
                }
                j = j - 1;
            }
            sorted = sorted + 1;
        }
        proof {
            assert forall|k: int| 0 <= k < active@.len() implies {
                let clip = (#[trigger] active@[k])@;
                &&& self.timeline.clip_map().contains_key(clip.id)
                &&& self.timeline.clip_map()[clip.id] == clip
                &&& clip.start <= time < clip.start + clip.duration
                &&& track_visible(self.timeline.tracks@, clip.track_id)
            } by {
                lemma_index_of_id(views, places[k]);
                assert(is_shown(views[places[k]], tracks, time as int));
            }
            assert forall|i: int, j: int| 0 <= i < j < active@.len() implies active@[i]@.id
                != active@[j]@.id by {
                assert(places[i] != places[j]);
                assert(views[places[i]].id != views[places[j]].id);
            }
            assert forall|id: Seq<char>|
                self.timeline.clip_map().contains_key(id) && is_shown(
                    self.timeline.clip_map()[id],
                    self.timeline.tracks@,
                    time as int,
                ) implies exists|k: int|
                0 <= k < active@.len() && (#[trigger] active@[k])@.id == id by {
                let at = index_of_id(views, id);
                lemma_index_of_id(views, at);
                assert(places.contains(at));
                let k = choose|k: int| 0 <= k < places.len() && places[k] == at;
                assert(active@[k]@.id == id);
            }
        }
        active
    }

    /// The clip that the engine shows at `time`: of the clips that are shown
    /// the one with the highest z-index, and of several with that z-index
    /// the one stored last. `None` where no clip is shown.
    pub fn get_active_clip(&self, time: i64) -> (top: Option<&Clip>)
        requires
            self.timeline.wf(),
        ensures
            top is Some <==> topmost_clip(
                self.timeline.views(),
                self.timeline.tracks@,
                time as int,
            ) is Some,
            top is Some ==> Some(top->0@) == topmost_clip(
                self.timeline.views(),
                self.timeline.tracks@,
                time as int,
            ),
            top is Some ==> {
                let clip = top->0@;
                &&& self.timeline.clip_map().contains_key(clip.id)
                &&& self.timeline.clip_map()[clip.id] == clip
                &&& is_shown(clip, self.timeline.tracks@, time as int)
                &&& forall|id: Seq<char>|
                    self.timeline.clip_map().contains_key(id) && is_shown(
                        #[trigger] self.timeline.clip_map()[id],
                        self.timeline.tracks@,
                        time as int,
                    ) ==> self.timeline.clip_map()[id].z_index <= clip.z_index
            },
    {
        let ghost views = self.timeline.views();
        let ghost tracks = self.timeline.tracks@;
        let mut best: Option<usize> = None;
        let mut i: usize = 0;
        while i < self.timeline.clips.len()
            invariant
                i <= self.timeline.clips@.len(),
                views == self.timeline.views(),
                tracks == self.timeline.tracks@,
                best is None ==> forall|j: int|
                    0 <= j < i ==> !is_shown(#[trigger] views[j], tracks, time as int),
                best is Some ==> best->0 < i && is_topmost(
                    views.take(i as int),
                    tracks,
                    time as int,
                    best->0 as int,
                ),
            decreases self.timeline.clips@.len() - i,
        {
            let clip = &self.timeline.clips[i];
            let ghost seen = views.take(i as int);
            let ghost next = views.take(i + 1);
            proof {
                assert forall|j: int| 0 <= j < i implies next[j] == seen[j] by {}
                assert(next[i as int] == views[i as int]);
            }
            if clip.is_active(time) && self.track_is_visible(clip.track_id) {
                let replace = match best {
                    Some(b) => self.timeline.clips[b].z_index <= clip.z_index,
                    None => true,
                };
                if replace {
                    proof {
                        assert forall|j: int|
                            0 <= j < next.len() && is_shown(
                                #[trigger] next[j],
                                tracks,
                                time as int,
                            ) implies next[j].z_index < next[i as int].z_index || (next[j].z_index
                            == next[i as int].z_index && j <= i) by {
                            if j < i {
                                assert(is_shown(seen[j], tracks, time as int));
                            }
                        }
                    }
                    best = Some(i);
                } else {
                    proof {
                        let b = best->0 as int;
                        assert forall|j: int|
                            0 <= j < next.len() && is_shown(
                                #[trigger] next[j],
                                tracks,
                                time as int,
                            ) implies next[j].z_index < next[b].z_index || (next[j].z_index
                            == next[b].z_index && j <= b) by {
                            if j < i {
                                assert(is_shown(seen[j], tracks, time as int));
                            }
                        }
                    }
                }
            } else {
                proof {
                    if best is Some {
                        let b = best->0 as int;
                        assert forall|j: int|
                            0 <= j < next.len() && is_shown(
                                #[trigger] next[j],
                                tracks,
                                time as int,
                            ) implies next[j].z_index < next[b].z_index || (next[j].z_index
                            == next[b].z_index && j <= b) by {
                            if j < i {
                                assert(is_shown(seen[j], tracks, time as int));
                            }
                        }
                    }
                }
            }
            i = i + 1;
        }
        assert(views.take(i as int) =~= views);
        proof {
            lemma_topmost_clip(views, tracks, time as int);
            if best is Some {
                let b = best->0 as int;
                lemma_index_of_id(views, b);
                assert forall|id: Seq<char>|
                    self.timeline.clip_map().contains_key(id) && is_shown(
                        #[trigger] self.timeline.clip_map()[id],
                        tracks,
                        time as int,
                    ) implies self.timeline.clip_map()[id].z_index <= views[b].z_index by {
                    let at = index_of_id(views, id);
                    lemma_index_of_id(views, at);
                }
            }
        }
        match best {
            Some(b) => Some(&self.timeline.clips[b]),
            None => None,
        }
    }

    /// Replaces the clips of the timeline by `new_clips`: the timeline is
    /// emptied and each clip is added in turn, as [`add_clip`](Self::add_clip)
    /// adds it.
    pub fn update_composition(&mut self, new_clips: Vec<Clip>)
        ensures
            final(self).timeline.wf(),
            final(self).timeline.tracks == old(self).timeline.tracks,
            is_total_duration(final(self).timeline.views(), final(self).timeline.duration as int),
            exists|generated: Seq<Seq<char>>|
                {
                    &&& generated.len() == new_clips@.len()
                    &&& forall|k: int|
                        0 <= k < generated.len() ==> is_uuid_shaped(#[trigger] generated[k])
                    &&& final(self).timeline.views() == with_clips(
                        Seq::empty(),
                        clip_views(new_clips@),
                        generated,
                    )
                },
    {
        self.timeline.clips.clear();
        self.timeline.duration = 0;
        let ghost added = clip_views(new_clips@);
        let ghost mut generated: Seq<Seq<char>> = Seq::empty();
        for clip in iter: new_clips
            invariant
                self.timeline.wf(),
                self.timeline.tracks == old(self).timeline.tracks,
                added == clip_views(iter.seq()),
                generated.len() == iter.index(),
                forall|k: int|
                    0 <= k < generated.len() ==> is_uuid_shaped(#[trigger] generated[k]),
                self.timeline.views() == with_clips(
                    Seq::empty(),
                    added.take(iter.index() as int),
                    generated,
                ),
        {
            let ghost before = self.timeline.views();
            let ghost n = generated.len() as int;
            self.add_clip(clip);
            proof {
                let id = choose|id: Seq<char>|
                    {
                        let stored = #[trigger] stored_clip(clip@, id);
                        &&& is_uuid_shaped(id)
                        &&& self.timeline.views() == with_clip(before, stored)
                    };
                let ghost earlier = generated;
                generated = generated.push(id);
                assert(generated.drop_last() =~= earlier);
                assert(added.take(n + 1).drop_last() =~= added.take(n));
                assert(added.take(n + 1).last() == clip@);
            }
        }
        assert(added.take(added.len() as int) =~= added);
    }

    /// Takes the clip with this identifier out of the timeline, if there is
    /// one, and sets `duration` anew.
    pub fn remove_clip(&mut self, clip_id: &str)
        requires
            old(self).timeline.wf(),
        ensures
            final(self).timeline.wf(),
            final(self).timeline.tracks == old(self).timeline.tracks,
            is_total_duration(final(self).timeline.views(), final(self).timeline.duration as int),
            final(self).timeline.views() == without_clip(old(self).timeline.views(), clip_id@),
            final(self).timeline.clip_map() == old(self).timeline.clip_map().remove(clip_id@),
    {
        let ghost before = self.timeline.views();
        let id = clip_id.to_owned();
        match self.find_clip(&id) {
            Some(i) => {
                proof {
                    lemma_index_of_id(before, i as int);
                }
                self.timeline.clips.remove(i);
                assert(self.timeline.views() =~= before.remove(i as int));
            },
            None => {},
        }
        proof {
            lemma_without_clip(before, clip_id@);
        }
        self.recalculate_duration();
    }
}

/// What holds while the clips shown at `time` are gathered and ordered:
/// `active` holds the clips at `places`, each place once, each of a clip
/// that is shown, and every clip before `upto` that is shown has its place
/// among them.
spec fn places_cover(
    clips: Seq<ClipView>,
    tracks: Map<i32, Track>,
    time: int,
    active: Seq<&Clip>,
    places: Seq<int>,
    upto: int,
) -> bool {
    &&& places.len() == active.len()
    &&& forall|k: int|
        0 <= k < places.len() ==> {
            &&& 0 <= #[trigger] places[k] < clips.len()
            &&& places[k] < upto
            &&& active[k]@ == clips[places[k]]
            &&& is_shown(clips[places[k]], tracks, time)
        }
    &&& forall|k1: int, k2: int| 0 <= k1 < k2 < places.len() ==> places[k1] != places[k2]
    &&& forall|j: int|
        0 <= j < upto && is_shown(#[trigger] clips[j], tracks, time) ==> places.contains(j)
}

/// Putting a clip among clips without a shared identifier leaves them
/// without one, and is an insertion into the mapping.
pub proof fn lemma_with_clip(clips: Seq<ClipView>, clip: ClipView)
    requires
        distinct_ids(clips),
    ensures
        distinct_ids(with_clip(clips, clip)),
        clip_map(with_clip(clips, clip)) == clip_map(clips).insert(clip.id, clip),
{
    let after = with_clip(clips, clip);
    let expected = clip_map(clips).insert(clip.id, clip);
    if has_id(clips, clip.id) {
        let at = index_of_id(clips, clip.id);
        assert(after[at] == clip);
        assert forall|id: Seq<char>| has_id(after, id) <==> expected.contains_key(id) by {
            if has_id(after, id) {
                let k = index_of_id(after, id);
                assert(clips[k].id == id);
            }
            if has_id(clips, id) {
                let k = index_of_id(clips, id);
                assert(after[k].id == id);
            }
        }
        assert forall|id: Seq<char>| has_id(after, id) implies clip_map(after)[id]
            == expected[id] by {
            let k = index_of_id(after, id);
            lemma_index_of_id(after, k);
            if k != at {
                lemma_index_of_id(clips, k);
            }
        }
    } else {
        let at = clips.len() as int;
        assert(after[at] == clip);
        assert forall|id: Seq<char>| has_id(after, id) <==> expected.contains_key(id) by {
            if has_id(after, id) {
                let k = index_of_id(after, id);
                if k < at {
                    assert(clips[k].id == id);
                }
            }
            if has_id(clips, id) {
                let k = index_of_id(clips, id);
                assert(after[k].id == id);
            }
        }
        assert forall|id: Seq<char>| has_id(after, id) implies clip_map(after)[id]
            == expected[id] by {
            let k = index_of_id(after, id);
            lemma_index_of_id(after, k);
            if k != at {
                lemma_index_of_id(clips, k);
            }
        }
    }
    assert(clip_map(after) =~= expected);
}

/// Taking a clip out of clips without a shared identifier leaves them
/// without one, and is a removal from the mapping.
pub proof fn lemma_without_clip(clips: Seq<ClipView>, id: Seq<char>)
    requires
        distinct_ids(clips),
    ensures
        distinct_ids(without_clip(clips, id)),
        clip_map(without_clip(clips, id)) == clip_map(clips).remove(id),
{
    let after = without_clip(clips, id);
    let expected = clip_map(clips).remove(id);
    if has_id(clips, id) {
        let at = index_of_id(clips, id);
        assert forall|i: int| 0 <= i < after.len() implies #[trigger] after[i] == clips[if i
            < at {
            i
        } else {
            i + 1
        }] by {}
        assert forall|other: Seq<char>| has_id(after, other) <==> expected.contains_key(
            other,
        ) by {
            if has_id(after, other) {
                let k = index_of_id(after, other);
                let from = if k < at {
                    k
                } else {
                    k + 1
                };
                assert(clips[from].id == other);
            }
            if has_id(clips, other) && other != id {
                let k = index_of_id(clips, other);
                let to = if k < at {
                    k
                } else {
                    k - 1
                };
                assert(after[to].id == other);
            }
        }
        assert forall|other: Seq<char>| has_id(after, other) implies clip_map(after)[other]
            == expected[other] by {
            let k = index_of_id(after, other);
            lemma_index_of_id(after, k);
            let from = if k < at {
                k
            } else {
                k + 1
            };
            lemma_index_of_id(clips, from);
        }
    }
    assert(clip_map(after) =~= expected);
}

} // verus!
