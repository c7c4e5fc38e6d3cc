//! Animations of a glTF scene and their JSON text.
use vstd::prelude::*;
use vstd::string::StringExecFns;
use crate::text::{decimal, spec_decimal};
use super::{add_and_get_index, join, spec_join, spec_texts, NodeIndex};
use super::buffer::AccessorIndex;

verus! {

/// The index of a channel of an animation.
#[derive(Copy, Clone, Debug)]
pub struct ChannelIndex(pub usize);

/// The index of a sampler of an animation.
#[derive(Copy, Clone, Debug)]
pub struct SamplerIndex(pub usize);

/// The index of an animation.
#[derive(Copy, Clone, Debug)]
pub struct AnimationIndex(pub usize);

/// The node property that an animation channel drives.
#[derive(Copy, Clone, Debug, PartialEq, Eq, Structural)]
pub enum GltfTargetPath {
    Translation,
    Rotation,
    Scale,
    Weights,
}

impl GltfTargetPath {
    pub open spec fn spec_gltf_str(self) -> Seq<char> {
        match self {
            GltfTargetPath::Translation => "translation"@,
            GltfTargetPath::Rotation => "rotation"@,
            GltfTargetPath::Scale => "scale"@,
            GltfTargetPath::Weights => "weights"@,
        }
    }

    /// The glTF name of the property.
    pub fn get_gltf_str(&self) -> (res: &'static str)
        ensures
            res@ == self.spec_gltf_str(),
    {
        match *self {
            GltfTargetPath::Translation => "translation",
            GltfTargetPath::Rotation => "rotation",
            GltfTargetPath::Scale => "scale",
            GltfTargetPath::Weights => "weights",
        }
    }
}

/// How a sampler interpolates between keyframes.
#[derive(Copy, Clone, Debug, PartialEq, Eq, Structural)]
pub enum AnimationInterpolation {
    Linear,
}

impl AnimationInterpolation {
    pub open spec fn spec_str(self) -> Seq<char> {
        match self {
            AnimationInterpolation::Linear => "LINEAR"@,
        }
    }

    /// The glTF name of the interpolation.
    pub fn as_str(&self) -> (res: &'static str)
        ensures
            res@ == self.spec_str(),
    {
        match *self {
            AnimationInterpolation::Linear => "LINEAR",
        }
    }
}

/// The node and property a channel drives.
#[derive(Copy, Clone, Debug)]
pub struct ChannelTarget {
    pub node: NodeIndex,
    pub path: GltfTargetPath,
}

/// A sampler that drives a target.
#[derive(Copy, Clone, Debug)]
pub struct Channel {
    pub sampler: SamplerIndex,
    pub target: ChannelTarget,
}

/// Keyframe times and values, by accessor.
#[derive(Copy, Clone, Debug)]
pub struct Sampler {
    pub input: AccessorIndex,
    pub interpolation: AnimationInterpolation,
    pub output: AccessorIndex,
}

/// A named animation: its channels and samplers.
pub struct Animation {
    channels: Vec<Channel>,
    name: String,
    samplers: Vec<Sampler>,
}

/// The animations of a scene, by index.
pub struct Animations {
    animations: Vec<Animation>,
}

/// The JSON object of a channel.
pub open spec fn spec_channel_text(c: Channel) -> Seq<char> {
    "           {\n                \"sampler\" : "@ + spec_decimal(c.sampler.0 as nat) + ",\n                \"target\" : {\n                    \"node\" : "@ + spec_decimal(
        c.target.node.0 as nat,
    ) + ",\n                    \"path\" : \""@ + c.target.path.spec_gltf_str() + "\"\n                }\n            }"@
}

/// The JSON object of a sampler.
pub open spec fn spec_sampler_text(s: Sampler) -> Seq<char> {
    "           {\n                \"input\" : "@ + spec_decimal(s.input.0 as nat) + ",\n                \"interpolation\" : \""@ + s.interpolation.spec_str()
        + "\",\n                \"output\" : "@ + spec_decimal(s.output.0 as nat) + "\n            }"@
}

/// The JSON object of an animation with these channels, name and samplers.
pub open spec fn spec_animation_text(
    channels: Seq<Channel>,
    name: Seq<char>,
    samplers: Seq<Sampler>,
) -> Seq<char> {
    "        {\n            \"channels\" : [\n"@ + spec_join(channels.map_values(|c: Channel| spec_channel_text(c)), ",\n"@)
        + "\n            ],\n            \"name\" : \""@ + name + "\",\n            \"samplers\" : [\n"@ + spec_join(
        samplers.map_values(|s: Sampler| spec_sampler_text(s)),
        ",\n"@,
    ) + "\n            ]\n        }"@
}

impl Animation {
    pub closed spec fn spec_channels(&self) -> Seq<Channel> {
        self.channels@
    }

    pub closed spec fn spec_name(&self) -> Seq<char> {
        self.name@
    }

    pub closed spec fn spec_samplers(&self) -> Seq<Sampler> {
        self.samplers@
    }

    /// The JSON object of this animation.
    pub open spec fn spec_text(&self) -> Seq<char> {
        spec_animation_text(self.spec_channels(), self.spec_name(), self.spec_samplers())
    }

    pub fn new(name: String) -> (res: Self)
        ensures
            res.spec_channels() == Seq::<Channel>::empty(),
            res.spec_name() == name@,
            res.spec_samplers() == Seq::<Sampler>::empty(),
    {
        Self { channels: Vec::new(), name, samplers: Vec::new() }
    }

    /// Adds a sampler; its index is the number of samplers added before it.
    pub fn add_sampler(&mut self, sampler: Sampler) -> (res: SamplerIndex)
        ensures
            final(self).spec_samplers() == old(self).spec_samplers().push(sampler),
            final(self).spec_channels() == old(self).spec_channels(),
            final(self).spec_name() == old(self).spec_name(),
            res.0 == old(self).spec_samplers().len(),
    {
        SamplerIndex(add_and_get_index(&mut self.samplers, sampler))
    }

    /// Adds a channel; its index is the number of channels added before it.
    pub fn add_channel(&mut self, channel: Channel) -> (res: ChannelIndex)
        ensures
            final(self).spec_channels() == old(self).spec_channels().push(channel),
            final(self).spec_samplers() == old(self).spec_samplers(),
            final(self).spec_name() == old(self).spec_name(),
            res.0 == old(self).spec_channels().len(),
    {
        ChannelIndex(add_and_get_index(&mut self.channels, channel))
    }

    /// The JSON object of this animation.
    pub fn write(&self) -> (res: String)
        ensures
            res@ == self.spec_text(),
    {
        let mut channels: Vec<String> = Vec::new();
        let n = self.channels.len();
        let mut i: usize = 0;
        while i < n
            invariant
                n == self.channels@.len(),
                0 <= i <= n,
                channels@.len() == i,
                forall|k: int|
                    0 <= k < i ==> #[trigger] channels@[k]@ == spec_channel_text(self.channels@[k]),
            decreases n - i,
        {
            let channel = self.channels[i];
            let mut text = String::from_str("           {\n                \"sampler\" : ");
            text.append(decimal(channel.sampler.0 as u64).as_str());
            text.append(",\n                \"target\" : {\n                    \"node\" : ");
            text.append(decimal(channel.target.node.0 as u64).as_str());
            text.append(",\n                    \"path\" : \"");
            text.append(channel.target.path.get_gltf_str());
            text.append("\"\n                }\n            }");
            channels.push(text);
            i += 1;
        }
        assert(spec_texts(channels@) =~= self.channels@.map_values(|c: Channel| spec_channel_text(c)));
        let channels = join(&channels, ",\n");

        let mut samplers: Vec<String> = Vec::new();
        let m = self.samplers.len();
        let mut j: usize = 0;
        while j < m
            invariant
                m == self.samplers@.len(),
                0 <= j <= m,
                samplers@.len() == j,
                forall|k: int|
                    0 <= k < j ==> #[trigger] samplers@[k]@ == spec_sampler_text(self.samplers@[k]),
            decreases m - j,
        {
            let sampler = self.samplers[j];
            let mut text = String::from_str("           {\n                \"input\" : ");
            text.append(decimal(sampler.input.0 as u64).as_str());
            text.append(",\n                \"interpolation\" : \"");
            text.append(sampler.interpolation.as_str());
            text.append("\",\n                \"output\" : ");
            text.append(decimal(sampler.output.0 as u64).as_str());
            text.append("\n            }");
            samplers.push(text);
            j += 1;
        }
        assert(spec_texts(samplers@) =~= self.samplers@.map_values(|s: Sampler| spec_sampler_text(s)));
        let samplers = join(&samplers, ",\n");

        let mut text = String::from_str("        {\n            \"channels\" : [\n");
        text.append(channels.as_str());
        text.append("\n            ],\n            \"name\" : \"");
        text.append(self.name.as_str());
        text.append("\",\n            \"samplers\" : [\n");
        text.append(samplers.as_str());
        text.append("\n            ]\n        }");
        text
    }
}

impl Animations {
    /// The animations added so far, by index.
    pub closed spec fn spec_animations(&self) -> Seq<Animation> {
        self.animations@
    }

    pub fn new(capacity: usize) -> (res: Self)
        ensures
            res.spec_animations() == Seq::<Animation>::empty(),
    {
        Self { animations: Vec::with_capacity(capacity) }
    }

    /// Adds an animation; its index is the number added before it.
    pub fn add_animation(&mut self, animation: Animation) -> (res: AnimationIndex)
        ensures
            final(self).spec_animations() == old(self).spec_animations().push(animation),
            res.0 == old(self).spec_animations().len(),
    {
        AnimationIndex(add_and_get_index(&mut self.animations, animation))
    }

    pub fn is_empty(&self) -> (res: bool)
        ensures
            res == (self.spec_animations().len() == 0),
    {
        self.animations.len() == 0
    }

    /// The JSON objects of the animations, in index order.
    pub fn write_animations(&self) -> (res: Vec<String>)
        ensures
            res@.len() == self.spec_animations().len(),
            forall|i: int|
                0 <= i < res@.len() ==> #[trigger] res@[i]@ == self.spec_animations()[i].spec_text(),
    {
        let mut animations: Vec<String> = Vec::new();
        let n = self.animations.len();
        let mut i: usize = 0;
        while i < n
            invariant
                n == self.animations@.len(),
                0 <= i <= n,
                animations@.len() == i,
                forall|k: int|
                    0 <= k < i ==> #[trigger] animations@[k]@ == self.animations@[k].spec_text(),
            decreases n - i,
        {
            animations.push(self.animations[i].write());
            i += 1;
        }
        animations
    }
}

} // verus!
