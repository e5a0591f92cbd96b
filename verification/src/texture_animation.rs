//! Minecraft's `.png.mcmeta` animation sidecars.
//!
//! An animated block texture is a vertical strip of square frames — `water_still`
//! is 16 wide and 512 tall, so 32 frames — paired with a sidecar naming the
//! playback order and timing:
//!
//! ```json
//! { "animation": { "frametime": 2, "interpolate": true,
//!                  "frames": [0, 1, 2, { "index": 3, "time": 10 }] } }
//! ```
//!
//! `frames` is optional; without it the strip plays straight through. Entries
//! are either a bare index or an index with its own duration, which overrides
//! `frametime` for that frame alone. Durations are in ticks (20 per second).
//!
//! The sidecar's JSON is read into [`AnimationMeta`], which holds exactly the
//! values the expansion looks at; [`expand_animation`] applies Minecraft's
//! defaulting rules to it.

use vstd::prelude::*;
use crate::json::{
    json_as_array, json_as_bool, json_as_u64, json_bool, json_get, json_is_number, json_is_object, json_of, json_text,
    json_u64, member, parse_json, Json,
};

verus! {

/// One step of a texture's animation: which row of the strip, and for how long.
#[derive(Debug, Clone, Copy, PartialEq, Eq, Structural)]
pub struct AnimationStep {
    /// Row of the strip to show, counting from the top.
    pub index: u32,
    /// How long to hold it, in ticks.
    pub ticks: u32,
}

/// A texture's animation, expanded from its `.mcmeta` and strip dimensions.
#[derive(Debug, Clone)]
pub struct TextureAnimation {
    /// Rows in the strip. The V axis has to be divided by this to isolate one.
    pub frame_count: u32,
    /// Whether the game cross-fades between steps.
    ///
    /// Reported so the addon can decide what to do; it currently steps.
    pub interpolate: bool,
    /// The playback order, already expanded and defaulted.
    pub steps: Vec<AnimationStep>,
}

/// One entry of a sidecar's `frames` list, as far as the expansion reads it.
#[derive(Debug, Clone, Copy, PartialEq, Eq, Structural)]
pub enum FrameEntry {
    /// A bare number; `None` when it is not a non-negative integer.
    Number(Option<u64>),
    /// An object; its `index` and `time` members when they are non-negative
    /// integers.
    Object { index: Option<u64>, time: Option<u64> },
    /// Anything else (a string, a list, ...).
    Other,
}

/// The `animation` block of a sidecar, as far as the expansion reads it.
#[derive(Debug, Clone)]
pub struct AnimationMeta {
    /// `frametime`, when it is a non-negative integer.
    pub frametime: Option<u64>,
    /// `interpolate`, when it is a boolean.
    pub interpolate: Option<bool>,
    /// `frames`, when it is a list.
    pub frames: Option<Vec<FrameEntry>>,
}

/// The sum of the steps' durations.
pub open spec fn sum_ticks(steps: Seq<AnimationStep>) -> nat
    decreases steps.len(),
{
    if steps.len() == 0 {
        0
    } else {
        sum_ticks(steps.drop_last()) + steps.last().ticks as nat
    }
}

impl TextureAnimation {
    /// Total length of one loop, in ticks.
    pub fn total_ticks(&self) -> (r: u32)
        requires
            sum_ticks(self.steps@) <= u32::MAX,
        ensures
            r == sum_ticks(self.steps@),
    {
        let mut total: u32 = 0;
        let mut i: usize = 0;
        while i < self.steps.len()
            invariant
                i <= self.steps@.len(),
                sum_ticks(self.steps@) <= u32::MAX,
                total == sum_ticks(self.steps@.take(i as int)),
            decreases self.steps@.len() - i,
        {
            proof {
                assert(self.steps@.take(i + 1).drop_last() =~= self.steps@.take(i as int));
                lemma_sum_ticks_prefix(self.steps@, i + 1);
            }
            total = total + self.steps[i].ticks;
            i += 1;
        }
        assert(self.steps@.take(i as int) =~= self.steps@);
        total
    }
}

proof fn lemma_sum_ticks_prefix(s: Seq<AnimationStep>, k: int)
    requires
        0 <= k <= s.len(),
    ensures
        sum_ticks(s.take(k)) <= sum_ticks(s),
    decreases s.len() - k,
{
    if k < s.len() {
        lemma_sum_ticks_prefix(s, k + 1);
        assert(s.take(k + 1).drop_last() =~= s.take(k));
    } else {
        assert(s.take(k) =~= s);
    }
}

/// A duration in ticks as a step holds it: its low 32 bits (the `as u32`
/// conversion); when those are zero the step would stall, so it gets
/// `fallback` instead, as a zero duration does.
pub open spec fn held_ticks(t: u64, fallback: u32) -> u32 {
    if t as u32 == 0 {
        fallback
    } else {
        t as u32
    }
}

/// The duration every step gets unless it names its own: the sidecar's
/// `frametime`, or one tick when it is absent or zero.
pub open spec fn default_ticks(meta: AnimationMeta) -> u32 {
    match meta.frametime {
        Some(t) => held_ticks(t, 1),
        None => 1,
    }
}

/// The step a `frames` entry stands for, before the strip's length is
/// checked; `None` for entries that name no row.
pub open spec fn entry_step(entry: FrameEntry, frametime: u32) -> Option<(u64, u64)> {
    match entry {
        FrameEntry::Number(n) => match n {
            Some(i) => Some((i, frametime as u64)),
            None => None,
        },
        FrameEntry::Object { index, time } => match index {
            Some(i) => Some(
                (
                    i,
                    match time {
                        Some(t) => if t > 0 { t } else { frametime as u64 },
                        None => frametime as u64,
                    },
                ),
            ),
            None => None,
        },
        FrameEntry::Other => None,
    }
}

/// The steps an explicit `frames` list expands to: each entry that names a
/// row of the strip, in order.
pub open spec fn listed_steps(frames: Seq<FrameEntry>, frametime: u32, frame_count: u32) -> Seq<
    AnimationStep,
>
    decreases frames.len(),
{
    if frames.len() == 0 {
        Seq::empty()
    } else {
        let before = listed_steps(frames.drop_last(), frametime, frame_count);
        match entry_step(frames.last(), frametime) {
            Some((i, t)) => if i < frame_count {
                before.push(AnimationStep { index: i as u32, ticks: held_ticks(t, frametime) })
            } else {
                before
            },
            None => before,
        }
    }
}

/// Every row of the strip in order, each for `frametime`.
pub open spec fn straight_steps(frame_count: u32, frametime: u32) -> Seq<AnimationStep> {
    Seq::new(frame_count as nat, |i: int| AnimationStep { index: i as u32, ticks: frametime })
}

/// The playback order a sidecar's `animation` block gives a strip of
/// `frame_count` rows.
pub open spec fn spec_steps(meta: AnimationMeta, frame_count: u32) -> Seq<AnimationStep> {
    match meta.frames {
        Some(frames) => listed_steps(frames@, default_ticks(meta), frame_count),
        None => straight_steps(frame_count, default_ticks(meta)),
    }
}

/// The animation a sidecar gives a strip: none for a single frame, for a
/// sidecar without an `animation` block, or when no step is left.
pub open spec fn spec_expand(meta: Option<AnimationMeta>, frame_count: u32) -> Option<
    (u32, bool, Seq<AnimationStep>),
> {
    if frame_count < 2 {
        None
    } else {
        match meta {
            None => None,
            Some(m) => {
                let steps = spec_steps(m, frame_count);
                if steps.len() == 0 {
                    None
                } else {
                    Some(
                        (
                            frame_count,
                            match m.interpolate {
                                Some(b) => b,
                                None => false,
                            },
                            steps,
                        ),
                    )
                }
            },
        }
    }
}

/// The animation as the spec's triple.
pub open spec fn animation_model(a: Option<TextureAnimation>) -> Option<
    (u32, bool, Seq<AnimationStep>),
> {
    match a {
        Some(t) => Some((t.frame_count, t.interpolate, t.steps@)),
        None => None,
    }
}

proof fn lemma_listed_steps(frames: Seq<FrameEntry>, frametime: u32, frame_count: u32)
    requires
        frametime > 0,
    ensures
        forall|i: int|
            0 <= i < listed_steps(frames, frametime, frame_count).len() ==> (#[trigger] listed_steps(
                frames,
                frametime,
                frame_count,
            )[i]).index < frame_count && listed_steps(frames, frametime, frame_count)[i].ticks > 0,
    decreases frames.len(),
{
    if frames.len() > 0 {
        let d = frames.drop_last();
        lemma_listed_steps(d, frametime, frame_count);
        match entry_step(frames.last(), frametime) {
            Some((i, t)) => {
                assert(0 < t);
                if i < frame_count {
                    let st = AnimationStep { index: i as u32, ticks: held_ticks(t, frametime) };
                    assert(st.index < frame_count && st.ticks > 0);
                    let all = listed_steps(frames, frametime, frame_count);
                    let before = listed_steps(d, frametime, frame_count);
                    assert(all == before.push(st));
                    assert forall|j: int| 0 <= j < all.len() implies #[trigger] all[j].index
                        < frame_count && all[j].ticks > 0 by {
                        if j < before.len() {
                            assert(all[j] == before[j]);
                        }
                    }
                }
            },
            None => {},
        }
        let all = listed_steps(frames, frametime, frame_count);
        let before = listed_steps(d, frametime, frame_count);
        assert forall|j: int| 0 <= j < all.len() implies #[trigger] all[j].index < frame_count
            && all[j].ticks > 0 by {
            if j < before.len() {
                assert(all[j] == before[j]);
            }
        }
    }
}

/// Every step of an expanded animation shows a row the strip has, and
/// holds it for at least one tick: a missing or zero duration, or one whose
/// 32 bits are zero, falls back to the default rather than stalling the
/// animation.
pub proof fn law_steps_are_playable(meta: AnimationMeta, frame_count: u32)
    ensures
        forall|i: int|
            0 <= i < spec_steps(meta, frame_count).len() ==> {
                let s = #[trigger] spec_steps(meta, frame_count)[i];
                s.index < frame_count && s.ticks > 0
            },
{
    match meta.frames {
        Some(frames) => {
            lemma_listed_steps(frames@, default_ticks(meta), frame_count);
        },
        None => {},
    }
}

/// A duration as a step holds it.
fn hold(t: u64, fallback: u32) -> (r: u32)
    ensures
        r == held_ticks(t, fallback),
{
    let w = t as u32;
    if w == 0 {
        fallback
    } else {
        w
    }
}

fn step_of(entry: FrameEntry, frametime: u32) -> (r: Option<(u64, u64)>)
    ensures
        r == entry_step(entry, frametime),
{
    match entry {
        FrameEntry::Number(n) => match n {
            Some(i) => Some((i, frametime as u64)),
            None => None,
        },
        FrameEntry::Object { index, time } => match index {
            Some(i) => {
                let t = match time {
                    Some(t) => if t > 0 {
                        t
                    } else {
                        frametime as u64
                    },
                    None => frametime as u64,
                };
                Some((i, t))
            },
            None => None,
        },
        FrameEntry::Other => None,
    }
}

/// Expand a sidecar's `animation` block against the strip it describes.
///
/// `frame_count` comes from the PNG (height / width) rather than the sidecar,
/// which never states it; `meta` is `None` when the sidecar carries no
/// `animation` block — some describe only GUI scaling. A strip of a single
/// frame has nothing to animate. Minecraft's default is one tick per frame,
/// and a zero duration would stall the animation, so it is treated as the
/// default too. A duration is kept to its low 32 bits, as the `u32` step
/// holds it, and one whose low 32 bits are zero gets the default as well.
/// A frame naming a row the strip does not have is dropped rather than
/// sampling past the end of the image.
pub fn expand_animation(meta: Option<&AnimationMeta>, frame_count: u32) -> (r: Option<TextureAnimation>)
    ensures
        animation_model(r) == spec_expand(
            match meta {
                Some(m) => Some(*m),
                None => None,
            },
            frame_count,
        ),
{
    if frame_count < 2 {
        return None;
    }
    let m = match meta {
        Some(m) => m,
        None => return None,
    };
    let frametime: u32 = match m.frametime {
        Some(t) => hold(t, 1),
        None => 1,
    };
    let interpolate = match m.interpolate {
        Some(b) => b,
        None => false,
    };
    let mut steps: Vec<AnimationStep> = Vec::new();
    match &m.frames {
        Some(frames) => {
            let mut k: usize = 0;
            while k < frames.len()
                invariant
                    k <= frames@.len(),
                    frametime == default_ticks(*m),
                    steps@ == listed_steps(frames@.take(k as int), frametime, frame_count),
                decreases frames@.len() - k,
            {
                proof {
                    assert(frames@.take(k + 1).drop_last() =~= frames@.take(k as int));
                }
                match step_of(frames[k], frametime) {
                    Some((i, t)) => {
                        if i < frame_count as u64 {
                            steps.push(AnimationStep { index: i as u32, ticks: hold(t, frametime) });
                        }
                    },
                    None => {},
                }
                k += 1;
            }
            assert(frames@.take(k as int) =~= frames@);
        },
        None => {
            let mut index: u32 = 0;
            while index < frame_count
                invariant
                    index <= frame_count,
                    steps@ == straight_steps(index, frametime),
                decreases frame_count - index,
            {
                steps.push(AnimationStep { index, ticks: frametime });
                assert(steps@ =~= straight_steps((index + 1) as u32, frametime));
                index += 1;
            }
        },
    }
    if steps.len() == 0 {
        return None;
    }
    Some(TextureAnimation { frame_count, interpolate, steps })
}

/// Rows in a texture strip: a strip is a whole number, at least two, of
/// squares stacked vertically.
pub open spec fn spec_strip_frame_count(width: u32, height: u32) -> Option<u32> {
    if width == 0 || height <= width || height % width != 0 {
        None
    } else {
        Some((height / width) as u32)
    }
}

/// Rows in a texture strip, or `None` when it is a plain square image.
pub fn strip_frame_count(width: u32, height: u32) -> (r: Option<u32>)
    ensures
        r == spec_strip_frame_count(width, height),
{
    if width == 0 || height <= width || height % width != 0 {
        return None;
    }
    Some(height / width)
}

} // verus!

verus! {

/// A `frames` entry as the expansion reads it.
pub open spec fn frame_entry_of(j: Json) -> FrameEntry {
    match j {
        Json::Number(n) => FrameEntry::Number(n),
        Json::Object(_) => FrameEntry::Object {
            index: match member(j, "index"@) {
                Some(i) => json_u64(i),
                None => None,
            },
            time: match member(j, "time"@) {
                Some(t) => json_u64(t),
                None => None,
            },
        },
        _ => FrameEntry::Other,
    }
}

/// An optional member read with `read`.
pub open spec fn member_u64(j: Json, key: Seq<char>) -> Option<u64> {
    match member(j, key) {
        Some(v) => json_u64(v),
        None => None,
    }
}

/// Whether `m` holds what an `animation` block says: its `frametime`,
/// `interpolate` and, when `frames` is a list, each entry in order.
pub open spec fn meta_reads(m: AnimationMeta, a: Json) -> bool {
    &&& m.frametime == member_u64(a, "frametime"@)
    &&& m.interpolate == match member(a, "interpolate"@) {
        Some(v) => json_bool(v),
        None => None,
    }
    &&& match member(a, "frames"@) {
        Some(Json::Array(s)) => m.frames matches Some(v) && v@.len() == s.len() && forall|i: int|
            0 <= i < s.len() ==> #[trigger] v@[i] == frame_entry_of(s[i]),
        _ => m.frames is None,
    }
}

/// A `frames` entry of a sidecar.
fn frame_entry(frame: &serde_json::Value) -> (r: FrameEntry)
    ensures
        r == frame_entry_of(json_of(frame)),
{
    proof {
        reveal_strlit("index");
        reveal_strlit("time");
    }
    if json_is_number(frame) {
        FrameEntry::Number(json_as_u64(frame))
    } else if json_is_object(frame) {
        let index = match json_get(frame, "index") {
            Some(i) => json_as_u64(i),
            None => None,
        };
        let time = match json_get(frame, "time") {
            Some(t) => json_as_u64(t),
            None => None,
        };
        FrameEntry::Object { index, time }
    } else {
        FrameEntry::Other
    }
}

/// The `animation` block of a parsed sidecar, as far as the expansion
/// reads it.
fn animation_meta(animation: &serde_json::Value) -> (m: AnimationMeta)
    ensures
        meta_reads(m, json_of(animation)),
{
    let frametime = match json_get(animation, "frametime") {
        Some(v) => json_as_u64(v),
        None => None,
    };
    let interpolate = match json_get(animation, "interpolate") {
        Some(v) => json_as_bool(v),
        None => None,
    };
    let frames = match json_get(animation, "frames") {
        Some(f) => match json_as_array(f) {
            Some(items) => {
                let ghost s = items@.map_values(|e: serde_json::Value| json_of(&e));
                let mut out: Vec<FrameEntry> = Vec::new();
                let mut i: usize = 0;
                while i < items.len()
                    invariant
                        i <= items@.len(),
                        s == items@.map_values(|e: serde_json::Value| json_of(&e)),
                        out@.len() == i,
                        forall|k: int| 0 <= k < i ==> #[trigger] out@[k] == frame_entry_of(s[k]),
                    decreases items@.len() - i,
                {
                    out.push(frame_entry(&items[i]));
                    i += 1;
                }
                Some(out)
            },
            None => None,
        },
        None => None,
    };
    AnimationMeta { frametime, interpolate, frames }
}

/// The `animation` block of a sidecar's JSON, when it has one.
pub open spec fn animation_block(bytes: Seq<u8>) -> Option<Json> {
    match json_text(bytes) {
        Some(root) => member(root, "animation"@),
        None => None,
    }
}

/// Parse a `.mcmeta` sidecar for a strip of `frame_count` frames.
///
/// `frame_count` comes from the PNG (height / width) rather than the
/// sidecar, which never states it. Returns `None` when the strip is a
/// single frame (nothing to animate), when the sidecar is not JSON, or when
/// it carries no `animation` block — some describe only GUI scaling.
pub fn parse_mcmeta(mcmeta: &[u8], frame_count: u32) -> (r: Option<TextureAnimation>)
    ensures
        frame_count < 2 ==> r is None,
        animation_block(mcmeta@) is None ==> r is None,
        frame_count >= 2 && animation_block(mcmeta@) is Some ==> exists|m: AnimationMeta|
            meta_reads(m, animation_block(mcmeta@).unwrap()) && animation_model(r) == #[trigger] spec_expand(
                Some(m),
                frame_count,
            ),
{
    proof {
        reveal_strlit("animation");
    }
    if frame_count < 2 {
        return None;
    }
    let root = match parse_json(mcmeta) {
        Some(v) => v,
        None => return None,
    };
    let animation = match json_get(&root, "animation") {
        Some(a) => a,
        None => return None,
    };
    let meta = animation_meta(animation);
    let r = expand_animation(Some(&meta), frame_count);
    assert(animation_model(r) == spec_expand(Some(meta), frame_count));
    r
}

} // verus!
