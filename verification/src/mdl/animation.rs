//! The animation frames of the sequences of an MDL file. Each bone of a
//! sequence has six channels (translation and rotation about X, Y, Z); a
//! channel's values are run-length encoded, and a value is scaled and offset
//! by the bone's `scale` and `value` to give the keyframe.
use vstd::prelude::*;
use vstd::utf8::*;
use vstd::string::StringSliceAdditionalSpecFns;
use crate::bytes::{F32Bits, spec_i16_le, spec_u16_le, le_i16, le_u16, spec_bytes2, spec_signed2, lemma_two_byte_values};
use crate::text::{null_terminated_bytes_to_str, spec_nul_end};
use super::records::{
    AnimationSequence, AnimationSequenceGroup, BoneHeader, ComponentTransformTarget, VectorChannel,
    spec_transform_target,
};

verus! {

broadcast use group_utf8_lib;

/// The header of a run of animation values: how many values are stored, and
/// how many frames the run covers.
#[derive(Copy, Clone, Debug)]
pub struct EncodedAnimationValue {
    pub valid: u8,
    pub total: u8,
}

/// The keyframes of one channel of a bone. Keyframe `k` is
/// `keyframe_values[k] * scale + offset`, in single precision.
pub struct BoneChannelAnimation {
    pub target: ComponentTransformTarget,
    pub keyframe_values: Vec<i16>,
    pub scale: F32Bits,
    pub offset: F32Bits,
}

/// The animated channels of one bone.
pub struct BoneAnimation {
    pub target: usize,
    pub channels: Vec<BoneChannelAnimation>,
}

/// An animation sequence with the channels of its animated bones.
pub struct Animation {
    pub name: String,
    pub fps: F32Bits,
    pub bone_animations: Vec<BoneAnimation>,
}

/// The value of frame `k` of the run-length encoded channel stored from
/// byte `p`: runs of two-byte entries, each starting with a header of `valid`
/// (the number of stored values) and `total` (the number of frames the run
/// covers); frames past the stored values repeat the last one. `None` when
/// the data runs past the end of `b`.
pub open spec fn spec_decode_frame(b: Seq<u8>, p: int, k: int) -> Option<i16>
    decreases b.len() - p,
{
    if p < 0 || k < 0 || p + 2 > b.len() {
        None
    } else {
        let valid = b[p] as int;
        let total = b[p + 1] as int;
        if total <= k {
            let next = p + 2 * (valid + 1);
            if next > b.len() {
                None
            } else {
                spec_decode_frame(b, next, k - total)
            }
        } else {
            let at = if valid > k { p + 2 * (k + 1) } else { p + 2 * valid };
            if at + 2 <= b.len() {
                Some(spec_i16_le(b, at))
            } else {
                None
            }
        }
    }
}

/// How frames of a run-length encoded channel are found, for a run whose
/// header at `p` holds `valid = b[p]` stored values covering `total =
/// b[p + 1]` frames: frame `k` of the run is stored value `k` (the two bytes
/// at `p + 2 + 2 k`) while `k < valid`, and the last stored value (the two
/// bytes at `p + 2 valid`) after that; a frame past the run is the frame
/// `k - total` of the run that follows the `valid` values.
pub proof fn lemma_run_frames(b: Seq<u8>, p: int, k: int)
    requires
        0 <= p,
        0 <= k,
        p + 2 <= b.len(),
    ensures
        k < b[p + 1] && k < b[p] && p + 2 * k + 4 <= b.len() ==> spec_decode_frame(b, p, k) == Some(
            spec_signed2(b, p + 2 + 2 * k) as i16,
        ),
        k < b[p + 1] && b[p] <= k && p + 2 * b[p] + 2 <= b.len() ==> spec_decode_frame(b, p, k) == Some(
            spec_signed2(b, p + 2 * b[p]) as i16,
        ),
        b[p + 1] <= k && p + 2 * (b[p] + 1) <= b.len() ==> spec_decode_frame(b, p, k) == spec_decode_frame(
            b,
            p + 2 * (b[p] + 1),
            k - b[p + 1],
        ),
{
    if k < b[p + 1] && k < b[p] && p + 2 * k + 4 <= b.len() {
        lemma_two_byte_values(b, p + 2 + 2 * k);
    }
    if k < b[p + 1] && b[p] <= k && p + 2 * b[p] + 2 <= b.len() {
        lemma_two_byte_values(b, p + 2 * b[p]);
    }
}

/// Decodes frame `frame` of the channel stored from byte `pos`.
pub fn decode_animation_frame(data: &[u8], pos: usize, frame: u32) -> (res: Option<i16>)
    ensures
        res == spec_decode_frame(data@, pos as int, frame as int),
{
    let len = data.len();
    let mut p: usize = pos;
    let mut k: u32 = frame;
    loop
        invariant
            len == data@.len(),
            spec_decode_frame(data@, pos as int, frame as int) == spec_decode_frame(
                data@,
                p as int,
                k as int,
            ),
        decreases len - p,
    {
        if p > len || len - p < 2 {
            return None;
        }
        let header = EncodedAnimationValue { valid: data[p], total: data[p + 1] };
        let valid = header.valid;
        let total = header.total;
        if (total as u32) <= k {
            let step: usize = 2 * (valid as usize + 1);
            if step > len - p {
                return None;
            }
            k = k - total as u32;
            p = p + step;
        } else {
            let d: usize = if (valid as u32) > k {
                2 * (k as usize + 1)
            } else {
                2 * valid as usize
            };
            if d > len - p || len - p - d < 2 {
                return None;
            }
            let at = p + d;
            return Some(le_i16(data, at));
        }
    }
}

/// The number of frames of a sequence, as a signed 32-bit count: a count
/// that does not fit gives no frames.
pub open spec fn spec_frame_count(num_frames: u32) -> nat {
    if num_frames <= 0x7fff_ffff {
        num_frames as nat
    } else {
        0
    }
}

pub open spec fn spec_value_or_zero(o: Option<i16>) -> i16 {
    match o {
        Some(v) => v,
        None => 0,
    }
}

/// The first `frames` frames of the channel stored from `p`; `None` when one
/// cannot be decoded.
pub open spec fn spec_keyframes(b: Seq<u8>, p: int, frames: nat) -> Option<Seq<i16>> {
    if forall|f: int| 0 <= f < frames ==> (#[trigger] spec_decode_frame(b, p, f)) is Some {
        Some(Seq::new(frames, |f: int| spec_value_or_zero(spec_decode_frame(b, p, f))))
    } else {
        None
    }
}

/// Every position from which not even one entry fits gives the same frames.
proof fn lemma_keyframes_past_end(b: Seq<u8>, p1: int, p2: int, frames: nat)
    requires
        0 <= p1,
        0 <= p2,
        p1 + 2 > b.len(),
        p2 + 2 > b.len(),
    ensures
        spec_keyframes(b, p1, frames) == spec_keyframes(b, p2, frames),
{
    assert forall|f: int| 0 <= f < frames implies spec_decode_frame(b, p1, f) == spec_decode_frame(b, p2, f) by {
    }
    if frames == 0 {
        assert(Seq::new(frames, |f: int| spec_value_or_zero(spec_decode_frame(b, p1, f))) =~= Seq::new(
            frames,
            |f: int| spec_value_or_zero(spec_decode_frame(b, p2, f)),
        ));
    } else {
        assert(spec_decode_frame(b, p1, 0) is None);
        assert(spec_decode_frame(b, p2, 0) is None);
    }
}

fn read_keyframes(b: &[u8], p: usize, frames: u32) -> (res: Option<Vec<i16>>)
    ensures
        match res {
            Some(v) => spec_keyframes(b@, p as int, frames as nat) == Some(v@),
            None => spec_keyframes(b@, p as int, frames as nat) is None,
        },
{
    let mut out: Vec<i16> = Vec::new();
    let mut f: u32 = 0;
    while f < frames
        invariant
            0 <= f <= frames,
            out@.len() == f,
            forall|g: int| 0 <= g < f ==> (#[trigger] spec_decode_frame(b@, p as int, g)) is Some,
            forall|g: int|
                0 <= g < f ==> out@[g] == spec_value_or_zero(spec_decode_frame(b@, p as int, g)),
        decreases frames - f,
    {
        match decode_animation_frame(b, p, f) {
            Some(v) => out.push(v),
            None => {
                assert(spec_decode_frame(b@, p as int, f as int) is None);
                return None;
            },
        }
        f += 1;
    }
    assert(out@ =~= Seq::new(frames as nat, |g: int| spec_value_or_zero(spec_decode_frame(b@, p as int, g))));
    Some(out)
}

/// A channel as plain values: what it drives, its raw values, its scale and
/// its offset.
pub type ChannelView = (ComponentTransformTarget, Seq<i16>, F32Bits, F32Bits);

/// A bone's animation as plain values: the bone's index and its channels.
pub type BoneView = (int, Seq<ChannelView>);

/// An animation as plain values: its name, frame rate and animated bones.
pub type AnimationView = (Seq<char>, F32Bits, Seq<BoneView>);

pub open spec fn spec_prepend<X>(p: Seq<X>, o: Option<Seq<X>>) -> Option<Seq<X>> {
    match o {
        Some(r) => Some(p + r),
        None => None,
    }
}

/// The channels from `j` on of the bone whose offsets record is at `rec`:
/// channel `j` is present when its offset (a `u16` at `rec + 2 j`) is not
/// zero, and its values are stored from `rec` plus that offset.
pub open spec fn spec_channels(b: Seq<u8>, rec: int, frames: nat, bone: BoneHeader, j: int) -> Option<
    Seq<ChannelView>,
>
    decreases 6 - j,
{
    if j < 0 || j >= 6 {
        Some(Seq::empty())
    } else {
        let off = spec_u16_le(b, rec + 2 * j);
        let rest = spec_channels(b, rec, frames, bone, j + 1);
        if off == 0 {
            rest
        } else {
            match spec_keyframes(b, rec + off, frames) {
                Some(kf) => spec_prepend(
                    seq![(spec_transform_target(j), kf, bone.scale[j], bone.value[j])],
                    rest,
                ),
                None => None,
            }
        }
    }
}

pub open spec fn spec_channel_views(c: Seq<BoneChannelAnimation>) -> Seq<ChannelView> {
    c.map_values(|a: BoneChannelAnimation| (a.target, a.keyframe_values@, a.scale, a.offset))
}

/// Channel `j` of the bone whose offsets record is at `rec` is present:
/// its stored offset (the two bytes at `rec + 2 j`) is not zero.
pub open spec fn spec_channel_present(b: Seq<u8>, rec: int, j: int) -> bool {
    0 <= j < 6 && spec_bytes2(b, rec + 2 * j) != 0
}

/// How many of channels `j` to 5 are present.
pub open spec fn spec_present_count(b: Seq<u8>, rec: int, j: int) -> int
    decreases 6 - j,
{
    if j < 0 || j >= 6 {
        0
    } else {
        (if spec_channel_present(b, rec, j) { 1int } else { 0int }) + spec_present_count(b, rec, j + 1)
    }
}

/// The channel index (0 to 5) of what a channel drives: X, Y, Z of the
/// translation, then X, Y, Z of the rotation.
pub open spec fn spec_channel_index(t: ComponentTransformTarget) -> int {
    let (base, axis) = match t {
        ComponentTransformTarget::Translation(v) => (0int, v),
        ComponentTransformTarget::Rotation(v) => (3int, v),
    };
    base + match axis {
        VectorChannel::X => 0int,
        VectorChannel::Y => 1int,
        VectorChannel::Z => 2int,
    }
}

/// Channel `c` is channel `j` of bone `bone` whose offsets record is at
/// `rec`: channel `j` is present, `c` drives the component of `j`, holds the
/// values stored from `rec` plus `j`'s offset, and takes its scale and
/// offset from `bone.scale[j]` and `bone.value[j]`.
pub open spec fn spec_channel_of_bone(b: Seq<u8>, rec: int, frames: nat, bone: BoneHeader, c: ChannelView, j: int) -> bool {
    &&& spec_channel_present(b, rec, j)
    &&& c.0 == spec_transform_target(j)
    &&& spec_keyframes(b, rec + spec_bytes2(b, rec + 2 * j), frames) == Some(c.1)
    &&& c.2 == bone.scale[j]
    &&& c.3 == bone.value[j]
}

/// The channels read for a bone are its present channels, one for each, in
/// order of their index, each with the scale and offset that the bone's
/// header gives for that index.
pub proof fn lemma_channels_follow_bone(b: Seq<u8>, rec: int, frames: nat, bone: BoneHeader)
    requires
        0 <= rec,
        rec + 12 <= b.len(),
        spec_channels(b, rec, frames, bone, 0) is Some,
    ensures
        ({
            let cs = spec_channels(b, rec, frames, bone, 0).unwrap();
            &&& cs.len() == spec_present_count(b, rec, 0)
            &&& forall|k: int|
                0 <= k < cs.len() ==> spec_channel_of_bone(b, rec, frames, bone, cs[k], spec_channel_index(#[trigger] cs[k].0))
            &&& forall|k1: int, k2: int|
                0 <= k1 < k2 < cs.len() ==> spec_channel_index(#[trigger] cs[k1].0) < spec_channel_index(#[trigger] cs[k2].0)
        }),
{
    lemma_channels_from(b, rec, frames, bone, 0);
}

proof fn lemma_channels_from(b: Seq<u8>, rec: int, frames: nat, bone: BoneHeader, j: int)
    requires
        0 <= rec,
        rec + 12 <= b.len(),
        0 <= j <= 6,
        spec_channels(b, rec, frames, bone, j) is Some,
    ensures
        ({
            let cs = spec_channels(b, rec, frames, bone, j).unwrap();
            &&& cs.len() == spec_present_count(b, rec, j)
            &&& forall|k: int|
                0 <= k < cs.len() ==> j <= spec_channel_index(#[trigger] cs[k].0) && spec_channel_of_bone(
                    b, rec, frames, bone, cs[k], spec_channel_index(cs[k].0))
            &&& forall|k1: int, k2: int|
                0 <= k1 < k2 < cs.len() ==> spec_channel_index(#[trigger] cs[k1].0) < spec_channel_index(#[trigger] cs[k2].0)
        }),
    decreases 6 - j,
{
    if j < 6 {
        lemma_two_byte_values(b, rec + 2 * j);
        lemma_channels_from(b, rec, frames, bone, j + 1);
        let rest = spec_channels(b, rec, frames, bone, j + 1).unwrap();
        let cs = spec_channels(b, rec, frames, bone, j).unwrap();
        let off = spec_u16_le(b, rec + 2 * j);
        if off != 0 {
            let kf = spec_keyframes(b, rec + off, frames).unwrap();
            let c0: ChannelView = (spec_transform_target(j), kf, bone.scale[j], bone.value[j]);
            assert(cs == seq![c0] + rest);
            assert(spec_channel_index(spec_transform_target(j)) == j);
            assert forall|k: int| 0 <= k < cs.len() implies j <= spec_channel_index(#[trigger] cs[k].0)
                && spec_channel_of_bone(b, rec, frames, bone, cs[k], spec_channel_index(cs[k].0)) by {
                if k > 0 {
                    assert(cs[k] == rest[k - 1]);
                }
            }
            assert forall|k1: int, k2: int| 0 <= k1 < k2 < cs.len() implies spec_channel_index(#[trigger] cs[k1].0)
                < spec_channel_index(#[trigger] cs[k2].0) by {
                assert(cs[k2] == rest[k2 - 1]);
                if k1 > 0 {
                    assert(cs[k1] == rest[k1 - 1]);
                }
            }
        } else {
            assert(cs == rest);
        }
    }
}

fn read_channels(b: &[u8], rec: usize, frames: u32, bone: &BoneHeader) -> (res: Option<
    Vec<BoneChannelAnimation>,
>)
    requires
        rec + 12 <= b@.len(),
    ensures
        match res {
            Some(v) => spec_channels(b@, rec as int, frames as nat, *bone, 0) == Some(
                spec_channel_views(v@),
            ),
            None => spec_channels(b@, rec as int, frames as nat, *bone, 0) is None,
        },
{
    let len = b.len();
    let mut out: Vec<BoneChannelAnimation> = Vec::new();
    let mut j: usize = 0;
    while j < 6
        invariant
            len == b@.len(),
            rec + 12 <= b@.len(),
            0 <= j <= 6,
            spec_channels(b@, rec as int, frames as nat, *bone, 0) == spec_prepend(
                spec_channel_views(out@),
                spec_channels(b@, rec as int, frames as nat, *bone, j as int),
            ),
        decreases 6 - j,
    {
        let off = le_u16(b, rec + 2 * j);
        if off != 0 {
            let p: usize = if off as usize <= len - rec {
                rec + off as usize
            } else {
                len
            };
            proof {
                if off > len - rec {
                    lemma_keyframes_past_end(b@, rec + off, len as int, frames as nat);
                }
            }
            let values = match read_keyframes(b, p, frames) {
                Some(v) => v,
                None => return None,
            };
            let ghost old_view = spec_channel_views(out@);
            let channel = BoneChannelAnimation {
                target: ComponentTransformTarget::from_index(j),
                keyframe_values: values,
                scale: bone.scale[j],
                offset: bone.value[j],
            };
            let ghost item: ChannelView = (channel.target, channel.keyframe_values@, channel.scale, channel.offset);
            out.push(channel);
            proof {
                assert(spec_channel_views(out@) =~= old_view.push(item));
                match spec_channels(b@, rec as int, frames as nat, *bone, j + 1) {
                    Some(rest) => {
                        assert(old_view + (seq![item] + rest) =~= old_view.push(item) + rest);
                    },
                    None => {},
                }
            }
        }
        j += 1;
    }
    proof {
        assert(spec_channel_views(out@) + Seq::<ChannelView>::empty() =~= spec_channel_views(out@));
    }
    Some(out)
}

/// The animated bones from `i` on of a sequence whose offsets records start
/// at `base`: a bone with no channel is left out.
pub open spec fn spec_bones(b: Seq<u8>, base: int, frames: nat, bones: Seq<BoneHeader>, i: int) -> Option<
    Seq<BoneView>,
>
    decreases bones.len() - i,
{
    if i < 0 || i >= bones.len() {
        Some(Seq::empty())
    } else {
        let rec = base + 12 * i;
        if rec + 12 > b.len() {
            None
        } else {
            match spec_channels(b, rec, frames, bones[i], 0) {
                None => None,
                Some(ch) => {
                    let rest = spec_bones(b, base, frames, bones, i + 1);
                    if ch.len() == 0 {
                        rest
                    } else {
                        spec_prepend(seq![(i, ch)], rest)
                    }
                },
            }
        }
    }
}

/// Bone `i` is animated: its channels, read from the 12-byte offsets record
/// at `base + 12 i`, are not all absent.
pub open spec fn spec_bone_animated(b: Seq<u8>, base: int, frames: nat, bones: Seq<BoneHeader>, i: int) -> bool {
    spec_channels(b, base + 12 * i, frames, bones[i], 0) matches Some(ch) && ch.len() > 0
}

/// How many of bones `i` on are animated.
pub open spec fn spec_animated_count(b: Seq<u8>, base: int, frames: nat, bones: Seq<BoneHeader>, i: int) -> int
    decreases bones.len() - i,
{
    if i < 0 || i >= bones.len() {
        0
    } else {
        (if spec_bone_animated(b, base, frames, bones, i) { 1int } else { 0int }) + spec_animated_count(
            b,
            base,
            frames,
            bones,
            i + 1,
        )
    }
}

/// The animated bones of a sequence whose offsets records start at `base`
/// are those with at least one channel, once each, in the order of the
/// bones; each holds its own index and the channels read from the record at
/// `base + 12 i` with that bone's header.
pub proof fn lemma_bones_follow_records(b: Seq<u8>, base: int, frames: nat, bones: Seq<BoneHeader>)
    requires
        0 <= base,
        spec_bones(b, base, frames, bones, 0) is Some,
    ensures
        ({
            let vs = spec_bones(b, base, frames, bones, 0).unwrap();
            &&& vs.len() == spec_animated_count(b, base, frames, bones, 0)
            &&& forall|k: int|
                0 <= k < vs.len() ==> {
                    let i = (#[trigger] vs[k]).0;
                    &&& 0 <= i < bones.len()
                    &&& vs[k].1.len() > 0
                    &&& spec_channels(b, base + 12 * i, frames, bones[i], 0) == Some(vs[k].1)
                }
            &&& forall|k1: int, k2: int| 0 <= k1 < k2 < vs.len() ==> (#[trigger] vs[k1]).0 < (#[trigger] vs[k2]).0
        }),
{
    lemma_bones_from(b, base, frames, bones, 0);
}

proof fn lemma_bones_from(b: Seq<u8>, base: int, frames: nat, bones: Seq<BoneHeader>, i: int)
    requires
        0 <= base,
        0 <= i,
        spec_bones(b, base, frames, bones, i) is Some,
    ensures
        ({
            let vs = spec_bones(b, base, frames, bones, i).unwrap();
            &&& vs.len() == spec_animated_count(b, base, frames, bones, i)
            &&& forall|k: int|
                0 <= k < vs.len() ==> {
                    let j = (#[trigger] vs[k]).0;
                    &&& i <= j < bones.len()
                    &&& vs[k].1.len() > 0
                    &&& spec_channels(b, base + 12 * j, frames, bones[j], 0) == Some(vs[k].1)
                }
            &&& forall|k1: int, k2: int| 0 <= k1 < k2 < vs.len() ==> (#[trigger] vs[k1]).0 < (#[trigger] vs[k2]).0
        }),
    decreases bones.len() - i,
{
    if i < bones.len() {
        lemma_bones_from(b, base, frames, bones, i + 1);
        let rest = spec_bones(b, base, frames, bones, i + 1).unwrap();
        let vs = spec_bones(b, base, frames, bones, i).unwrap();
        let ch = spec_channels(b, base + 12 * i, frames, bones[i], 0).unwrap();
        if ch.len() == 0 {
            assert(vs == rest);
        } else {
            assert(vs == seq![(i, ch)] + rest);
            assert forall|k: int| 0 <= k < vs.len() implies {
                let j = (#[trigger] vs[k]).0;
                &&& i <= j < bones.len()
                &&& vs[k].1.len() > 0
                &&& spec_channels(b, base + 12 * j, frames, bones[j], 0) == Some(vs[k].1)
            } by {
                if k > 0 {
                    assert(vs[k] == rest[k - 1]);
                }
            }
            assert forall|k1: int, k2: int| 0 <= k1 < k2 < vs.len() implies (#[trigger] vs[k1]).0 < (#[trigger] vs[k2]).0 by {
                assert(vs[k2] == rest[k2 - 1]);
                if k1 > 0 {
                    assert(vs[k1] == rest[k1 - 1]);
                }
            }
        }
    }
}

pub open spec fn spec_bone_views(v: Seq<BoneAnimation>) -> Seq<BoneView> {
    v.map_values(|a: BoneAnimation| (a.target as int, spec_channel_views(a.channels@)))
}

fn read_bones(b: &[u8], base: usize, frames: u32, bones: &Vec<BoneHeader>) -> (res: Option<
    Vec<BoneAnimation>,
>)
    ensures
        match res {
            Some(v) => spec_bones(b@, base as int, frames as nat, bones@, 0) == Some(
                spec_bone_views(v@),
            ),
            None => spec_bones(b@, base as int, frames as nat, bones@, 0) is None,
        },
{
    let len = b.len();
    let n = bones.len();
    let mut out: Vec<BoneAnimation> = Vec::new();
    let mut i: usize = 0;
    while i < n
        invariant
            len == b@.len(),
            n == bones@.len(),
            0 <= i <= n,
            spec_bones(b@, base as int, frames as nat, bones@, 0) == spec_prepend(
                spec_bone_views(out@),
                spec_bones(b@, base as int, frames as nat, bones@, i as int),
            ),
        decreases n - i,
    {
        if base > len || (len - base) / 12 <= i {
            return None;
        }
        let rec = base + 12 * i;
        let channels = match read_channels(b, rec, frames, &bones[i]) {
            Some(c) => c,
            None => return None,
        };
        if channels.len() > 0 {
            let ghost old_view = spec_bone_views(out@);
            let ghost item: BoneView = (i as int, spec_channel_views(channels@));
            out.push(BoneAnimation { target: i, channels });
            proof {
                assert(spec_bone_views(out@) =~= old_view.push(item));
                match spec_bones(b@, base as int, frames as nat, bones@, i + 1) {
                    Some(rest) => {
                        assert(old_view + (seq![item] + rest) =~= old_view.push(item) + rest);
                    },
                    None => {},
                }
            }
        }
        i += 1;
    }
    proof {
        assert(spec_bone_views(out@) + Seq::<BoneView>::empty() =~= spec_bone_views(out@));
    }
    Some(out)
}

/// The name bytes of a sequence: its 32-byte field up to the first zero byte.
pub open spec fn spec_sequence_name(s: AnimationSequence) -> Seq<u8> {
    s.name@.subrange(0, spec_nul_end(s.name@))
}

/// The animations of the sequences from `k` on. Every sequence's name must be
/// valid UTF-8; only the sequences of group 0 (those stored in this file) are
/// animated, which needs group 0 to exist with its second reserved field zero
/// and the sequence's animation data to lie within `b`.
pub open spec fn spec_animations(
    b: Seq<u8>,
    seqs: Seq<AnimationSequence>,
    groups: Seq<AnimationSequenceGroup>,
    bones: Seq<BoneHeader>,
    k: int,
) -> Option<Seq<AnimationView>>
    decreases seqs.len() - k,
{
    if k < 0 || k >= seqs.len() {
        Some(Seq::empty())
    } else {
        let s = seqs[k];
        let name = spec_sequence_name(s);
        if !valid_utf8(name) {
            None
        } else {
            let rest = spec_animations(b, seqs, groups, bones, k + 1);
            if s.sequence_group != 0 {
                rest
            } else if groups.len() == 0 || groups[0].unused_2 != 0 || s.animation_offset > b.len() {
                None
            } else {
                match spec_bones(
                    b,
                    s.animation_offset as int,
                    spec_frame_count(s.num_frames),
                    bones,
                    0,
                ) {
                    None => None,
                    Some(bv) => spec_prepend(seq![(decode_utf8(name), s.fps, bv)], rest),
                }
            }
        }
    }
}

pub open spec fn spec_animation_views(v: Seq<Animation>) -> Seq<AnimationView> {
    v.map_values(|a: Animation| (a.name@, a.fps, spec_bone_views(a.bone_animations@)))
}

/// Reads the animations of the sequences stored in `b`.
pub fn read_animations(
    b: &[u8],
    seqs: &Vec<AnimationSequence>,
    groups: &Vec<AnimationSequenceGroup>,
    bones: &Vec<BoneHeader>,
) -> (res: Option<Vec<Animation>>)
    ensures
        match res {
            Some(v) => spec_animations(b@, seqs@, groups@, bones@, 0) == Some(
                spec_animation_views(v@),
            ),
            None => spec_animations(b@, seqs@, groups@, bones@, 0) is None,
        },
{
    let len = b.len();
    let n = seqs.len();
    let mut out: Vec<Animation> = Vec::new();
    let mut k: usize = 0;
    while k < n
        invariant
            len == b@.len(),
            n == seqs@.len(),
            0 <= k <= n,
            spec_animations(b@, seqs@, groups@, bones@, 0) == spec_prepend(
                spec_animation_views(out@),
                spec_animations(b@, seqs@, groups@, bones@, k as int),
            ),
        decreases n - k,
    {
        let s = &seqs[k];
        let name = match null_terminated_bytes_to_str(s.name.as_slice()) {
            Ok(name) => name,
            Err(_) => return None,
        };
        if s.sequence_group == 0 {
            if groups.len() == 0 || groups[0].unused_2 != 0 {
                return None;
            }
            if s.animation_offset as u64 > len as u64 {
                return None;
            }
            let frames: u32 = if s.num_frames <= 0x7fff_ffff { s.num_frames } else { 0 };
            let bone_animations = match read_bones(b, s.animation_offset as usize, frames, bones) {
                Some(v) => v,
                None => return None,
            };
            proof {
                assert(decode_utf8(name.spec_bytes()) == name@);
            }
            let ghost old_view = spec_animation_views(out@);
            let anim = Animation { name: name.to_owned(), fps: s.fps, bone_animations };
            let ghost item: AnimationView = (anim.name@, anim.fps, spec_bone_views(anim.bone_animations@));
            out.push(anim);
            proof {
                assert(spec_animation_views(out@) =~= old_view.push(item));
                match spec_animations(b@, seqs@, groups@, bones@, k + 1) {
                    Some(rest) => {
                        assert(old_view + (seq![item] + rest) =~= old_view.push(item) + rest);
                    },
                    None => {},
                }
            }
        }
        k += 1;
    }
    proof {
        assert(spec_animation_views(out@) + Seq::<AnimationView>::empty() =~= spec_animation_views(out@));
    }
    Some(out)
}

} // verus!
