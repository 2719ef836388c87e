//! The animation engine: pure steps of an atlas frame index.
use core::ops::Range;
use rand::Rng;
use vstd::prelude::*;

verus! {

/// How an animated atlas walks through its frame range.
#[derive(Clone, Copy, Debug, PartialEq, Eq, Structural)]
pub enum AnimationMode {
    Forward,
    Backward,
    Random,
}

/// Layout of a texture atlas and the frame it currently shows.
#[derive(Clone, Copy, Debug, PartialEq, Eq, Structural)]
pub struct AtlasConfig {
    pub current_frame: usize,
    pub atlas_columns: usize,
    pub atlas_rows: usize,
    pub columns_wide: usize,
    pub rows_tall: usize,
}

/// How an atlas is animated.
#[derive(Debug)]
pub struct AnimationConfig {
    pub looping: bool,
    pub mode: AnimationMode,
    /// The frames played, `start` inclusive, `end` exclusive.
    pub frame_range: Range<usize>,
    /// Time one frame stays on screen, in microseconds; zero freezes the atlas.
    pub frame_duration: u64,
}

impl Clone for AnimationConfig {
    fn clone(&self) -> (r: Self)
        ensures
            r == *self,
    {
        AnimationConfig {
            looping: self.looping,
            mode: self.mode,
            frame_range: Range { start: self.frame_range.start, end: self.frame_range.end },
            frame_duration: self.frame_duration,
        }
    }
}

impl AnimationConfig {
    /// The frame range holds at least one frame.
    pub open spec fn range_ok(&self) -> bool {
        self.frame_range.start < self.frame_range.end
    }
}

/// The frame reached by stepping `advance` frames forward from `current`
/// inside `[start, end)`.
pub open spec fn forward_frame(advance: int, current: int, start: int, end: int, looping: bool) -> int {
    if current < start {
        start
    } else if current + advance < end {
        current + advance
    } else if looping {
        start + (current + advance - start) % (end - start)
    } else {
        end - 1
    }
}

/// The frame reached by stepping `advance` frames backward from `current`
/// inside `[start, end)`: looping wraps around the range, and without
/// looping the frame stops on `start`. A frame above the range is brought
/// to `end`.
pub open spec fn backward_frame(advance: int, current: int, start: int, end: int, looping: bool) -> int {
    if current > end {
        end
    } else if looping {
        start + (current - advance - start) % (end - start)
    } else if current - advance >= start {
        current - advance
    } else {
        start
    }
}

/// Steps the atlas forward by `frame_advance` frames and returns the new
/// frame. A frame below the range is first brought to its start, which is
/// then returned without advancing.
pub fn forward_animation(
    frame_advance: u64,
    atlas_config: &mut AtlasConfig,
    animation_config: &AnimationConfig,
) -> (r: usize)
    requires
        animation_config.range_ok(),
    ensures
        r == forward_frame(
            frame_advance as int,
            old(atlas_config).current_frame as int,
            animation_config.frame_range.start as int,
            animation_config.frame_range.end as int,
            animation_config.looping,
        ),
        *final(atlas_config) == (if old(atlas_config).current_frame < animation_config.frame_range.start {
            AtlasConfig { current_frame: animation_config.frame_range.start, ..*old(atlas_config) }
        } else {
            *old(atlas_config)
        }),
{
    let start = animation_config.frame_range.start;
    let end = animation_config.frame_range.end;
    if atlas_config.current_frame < start {
        atlas_config.current_frame = start;
        return atlas_config.current_frame;
    }
    let new_frame: u128 = atlas_config.current_frame as u128 + frame_advance as u128;
    if new_frame < end as u128 {
        new_frame as usize
    } else if animation_config.looping {
        let offset: u128 = (new_frame - start as u128) % ((end - start) as u128);
        (start as u128 + offset) as usize
    } else {
        end - 1
    }
}

/// Steps the atlas backward by `frame_advance` frames and returns the new
/// frame. A frame above the range end is first brought to the end, which is
/// then returned without stepping. No step underflows.
pub fn backward_animation(
    frame_advance: u64,
    atlas_config: &mut AtlasConfig,
    animation_config: &AnimationConfig,
) -> (r: usize)
    requires
        animation_config.range_ok(),
    ensures
        r == backward_frame(
            frame_advance as int,
            old(atlas_config).current_frame as int,
            animation_config.frame_range.start as int,
            animation_config.frame_range.end as int,
            animation_config.looping,
        ),
        *final(atlas_config) == (if old(atlas_config).current_frame > animation_config.frame_range.end {
            AtlasConfig { current_frame: animation_config.frame_range.end, ..*old(atlas_config) }
        } else {
            *old(atlas_config)
        }),
{
    let start = animation_config.frame_range.start;
    let end = animation_config.frame_range.end;
    let current = atlas_config.current_frame;
    if current > end {
        atlas_config.current_frame = end;
        return atlas_config.current_frame;
    }
    let len: i128 = end as i128 - start as i128;
    let new_frame: i128 = current as i128 - frame_advance as i128;
    if animation_config.looping {
        if new_frame >= start as i128 {
            let offset: i128 = ((new_frame - start as i128) as u128 % len as u128) as i128;
            (start as i128 + offset) as usize
        } else {
            let below: i128 = end as i128 - 1 - new_frame;
            let back: i128 = (below as u128 % len as u128) as i128;
            proof {
                lemma_wrap_from_end(new_frame as int, start as int, end as int);
            }
            (end as i128 - 1 - back) as usize
        }
    } else if new_frame >= start as i128 {
        new_frame as usize
    } else {
        start
    }
}

/// Below `start`, wrapping into `[start, end)` counts back from `end - 1`.
proof fn lemma_wrap_from_end(n: int, start: int, end: int)
    requires
        start < end,
        n < start,
    ensures
        start + (n - start) % (end - start) == end - 1 - (end - 1 - n) % (end - start),
{
    let len = end - start;
    let a = end - 1 - n;
    vstd::arithmetic::div_mod::lemma_fundamental_div_mod(a, len);
    let q = a / len;
    let r = a % len;
    assert(n - start == (-q) * len + (len - 1 - r)) by (nonlinear_arith)
        requires a == len * q + r, a == end - 1 - n, len == end - start;
    vstd::arithmetic::div_mod::lemma_fundamental_div_mod_converse(n - start, len, -q, len - 1 - r);
}

/// Relies on rand's `rng().random_range(start..end)`: a value drawn from the
/// half-open range, which must not be empty.
#[verifier::external_body]
pub(crate) fn random_frame(start: usize, end: usize) -> (r: usize)
    requires
        start < end,
    ensures
        start <= r < end,
{
    rand::rng().random_range(start..end)
}

/// A frame drawn uniformly from the animation's range.
pub fn random_animation(animation_config: &AnimationConfig) -> (r: usize)
    requires
        animation_config.range_ok(),
    ensures
        animation_config.frame_range.start <= r < animation_config.frame_range.end,
{
    random_frame(animation_config.frame_range.start, animation_config.frame_range.end)
}

/// A forward step never leaves `[start, end)`. Without looping, a step that
/// reaches or passes the end stops on `end - 1`, and later steps stay there.
pub proof fn lemma_forward_stays_in_range(advance: nat, current: nat, start: nat, end: nat, looping: bool)
    requires
        start < end,
    ensures
        start <= forward_frame(advance as int, current as int, start as int, end as int, looping) < end,
        !looping && start <= current && current + advance >= end ==> forward_frame(
            advance as int,
            current as int,
            start as int,
            end as int,
            looping,
        ) == end - 1,
        forward_frame(advance as int, end - 1, start as int, end as int, false) == end - 1,
{
}

/// A backward step from a frame no higher than `end` stays in
/// `[start, end)`, with looping wrapping around the range, without looping
/// stopping on `start`, which it then never leaves. With `start` at zero,
/// looping is subtraction modulo `end`.
pub proof fn lemma_backward_stays_in_range(advance: nat, current: nat, start: nat, end: nat, looping: bool)
    requires
        start < end,
    ensures
        current <= end && (looping || start <= current < end) ==> start <= backward_frame(
            advance as int,
            current as int,
            start as int,
            end as int,
            looping,
        ) < end,
        !looping && current <= end && current - advance < start ==> backward_frame(
            advance as int,
            current as int,
            start as int,
            end as int,
            looping,
        ) == start,
        backward_frame(advance as int, start as int, start as int, end as int, false) == start,
        looping && start == 0 && current <= end ==> backward_frame(advance as int, current as int, 0, end as int, true)
            == (current - advance) % (end as int),
{
}

} // verus!
