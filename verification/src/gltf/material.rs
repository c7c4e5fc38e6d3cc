//! The textures, images and samplers of a glTF file, and their JSON text.
use vstd::prelude::*;
use vstd::string::StringExecFns;
use crate::text::{decimal, spec_decimal};
use super::add_and_get_index;

verus! {

/// The index of a material.
#[derive(Copy, Clone, Debug)]
pub struct MaterialIndex(pub usize);

/// The index of a texture.
#[derive(Copy, Clone, Debug)]
pub struct TextureIndex(pub usize);

/// The index of an image.
#[derive(Copy, Clone, Debug)]
pub struct ImageIndex(pub usize);

/// The index of a sampler.
#[derive(Copy, Clone, Debug)]
pub struct SamplerIndex(pub usize);

/// A texture: an image sampled with a sampler.
#[derive(Copy, Clone, Debug)]
pub struct Texture {
    pub sampler: SamplerIndex,
    pub source: ImageIndex,
}

/// An image, by the URI of its file.
pub struct Image {
    pub uri: String,
}

/// How a texture is magnified, by its glTF code.
#[derive(Copy, Clone, Debug, PartialEq, Eq, Structural)]
pub enum MagFilter {
    Nearest,
    Linear,
}

/// How a texture is minified, by its glTF code.
#[derive(Copy, Clone, Debug, PartialEq, Eq, Structural)]
pub enum MinFilter {
    Nearest,
    Linear,
    NearestMipMapNearest,
    LinearMipMapNearest,
    NearestMipMapLinear,
    LinearMipMapLinear,
}

/// How texture coordinates outside 0 to 1 wrap, by their glTF code.
#[derive(Copy, Clone, Debug, PartialEq, Eq, Structural)]
pub enum Wrap {
    ClampToEdge,
    MirroredRepeat,
    Repeat,
}

impl MagFilter {
    pub open spec fn spec_value(self) -> nat {
        match self {
            MagFilter::Nearest => 9728,
            MagFilter::Linear => 9729,
        }
    }

    pub fn value(&self) -> (res: u64)
        ensures
            res == self.spec_value(),
    {
        match *self {
            MagFilter::Nearest => 9728,
            MagFilter::Linear => 9729,
        }
    }
}

impl MinFilter {
    pub open spec fn spec_value(self) -> nat {
        match self {
            MinFilter::Nearest => 9728,
            MinFilter::Linear => 9729,
            MinFilter::NearestMipMapNearest => 9984,
            MinFilter::LinearMipMapNearest => 9985,
            MinFilter::NearestMipMapLinear => 9986,
            MinFilter::LinearMipMapLinear => 9987,
        }
    }

    pub fn value(&self) -> (res: u64)
        ensures
            res == self.spec_value(),
    {
        match *self {
            MinFilter::Nearest => 9728,
            MinFilter::Linear => 9729,
            MinFilter::NearestMipMapNearest => 9984,
            MinFilter::LinearMipMapNearest => 9985,
            MinFilter::NearestMipMapLinear => 9986,
            MinFilter::LinearMipMapLinear => 9987,
        }
    }
}

impl Wrap {
    pub open spec fn spec_value(self) -> nat {
        match self {
            Wrap::ClampToEdge => 33701,
            Wrap::MirroredRepeat => 33648,
            Wrap::Repeat => 10497,
        }
    }

    pub fn value(&self) -> (res: u64)
        ensures
            res == self.spec_value(),
    {
        match *self {
            Wrap::ClampToEdge => 33701,
            Wrap::MirroredRepeat => 33648,
            Wrap::Repeat => 10497,
        }
    }
}

/// A sampler: the filters and wrapping of a texture.
#[derive(Copy, Clone, Debug)]
pub struct Sampler {
    pub mag_filter: MagFilter,
    pub min_filter: MinFilter,
    pub wrap_s: Wrap,
    pub wrap_t: Wrap,
}

/// The JSON object of a texture.
pub open spec fn spec_texture_text(t: Texture) -> Seq<char> {
    "           {\n                \"sampler\" : "@ + spec_decimal(t.sampler.0 as nat) + ",\n                \"source\" : "@ + spec_decimal(t.source.0 as nat) + "\n            }"@
}

/// The JSON object of an image.
pub open spec fn spec_image_text(uri: Seq<char>) -> Seq<char> {
    "         {\n                \"uri\" : \""@ + uri + "\"\n            }"@
}

/// The JSON object of a sampler.
pub open spec fn spec_sampler_text(s: Sampler) -> Seq<char> {
    "{\n                \"magFilter\" : "@ + spec_decimal(s.mag_filter.spec_value()) + ",\n                \"minFilter\" : "@ + spec_decimal(s.min_filter.spec_value())
        + ",\n                \"wrapS\" : "@ + spec_decimal(s.wrap_s.spec_value()) + ",\n                \"wrapT\" : "@ + spec_decimal(s.wrap_t.spec_value())
        + "\n            }"@
}

/// The textures, images and samplers of a file, by index.
pub struct MaterialTables {
    textures: Vec<Texture>,
    images: Vec<Image>,
    samplers: Vec<Sampler>,
}

impl MaterialTables {
    pub closed spec fn spec_textures(&self) -> Seq<Texture> {
        self.textures@
    }

    pub closed spec fn spec_images(&self) -> Seq<Image> {
        self.images@
    }

    pub closed spec fn spec_samplers(&self) -> Seq<Sampler> {
        self.samplers@
    }

    pub fn new() -> (res: Self)
        ensures
            res.spec_textures() == Seq::<Texture>::empty(),
            res.spec_images() == Seq::<Image>::empty(),
            res.spec_samplers() == Seq::<Sampler>::empty(),
    {
        Self { textures: Vec::new(), images: Vec::new(), samplers: Vec::new() }
    }

    /// Adds a texture; its index is the number added before it.
    pub fn add_texture(&mut self, texture: Texture) -> (res: TextureIndex)
        ensures
            final(self).spec_textures() == old(self).spec_textures().push(texture),
            final(self).spec_images() == old(self).spec_images(),
            final(self).spec_samplers() == old(self).spec_samplers(),
            res.0 == old(self).spec_textures().len(),
    {
        TextureIndex(add_and_get_index(&mut self.textures, texture))
    }

    /// Adds an image; its index is the number added before it.
    pub fn add_images(&mut self, image: Image) -> (res: ImageIndex)
        ensures
            final(self).spec_images() == old(self).spec_images().push(image),
            final(self).spec_textures() == old(self).spec_textures(),
            final(self).spec_samplers() == old(self).spec_samplers(),
            res.0 == old(self).spec_images().len(),
    {
        ImageIndex(add_and_get_index(&mut self.images, image))
    }

    /// Adds a sampler; its index is the number added before it.
    pub fn add_sampler(&mut self, sampler: Sampler) -> (res: SamplerIndex)
        ensures
            final(self).spec_samplers() == old(self).spec_samplers().push(sampler),
            final(self).spec_textures() == old(self).spec_textures(),
            final(self).spec_images() == old(self).spec_images(),
            res.0 == old(self).spec_samplers().len(),
    {
        SamplerIndex(add_and_get_index(&mut self.samplers, sampler))
    }

    /// The JSON objects of the textures, in index order.
    pub fn write_textures(&self) -> (res: Vec<String>)
        ensures
            res@.len() == self.spec_textures().len(),
            forall|i: int| 0 <= i < res@.len() ==> #[trigger] res@[i]@ == spec_texture_text(self.spec_textures()[i]),
    {
        let mut out: Vec<String> = Vec::new();
        let n = self.textures.len();
        let mut i: usize = 0;
        while i < n
            invariant
                n == self.textures@.len(),
                0 <= i <= n,
                out@.len() == i,
                forall|j: int| 0 <= j < i ==> #[trigger] out@[j]@ == spec_texture_text(self.textures@[j]),
            decreases n - i,
        {
            let t = self.textures[i];
            let mut s = String::from_str("           {\n                \"sampler\" : ");
            s.append(decimal(t.sampler.0 as u64).as_str());
            s.append(",\n                \"source\" : ");
            s.append(decimal(t.source.0 as u64).as_str());
            s.append("\n            }");
            out.push(s);
            i += 1;
        }
        out
    }

    /// The JSON objects of the images, in index order.
    pub fn write_images(&self) -> (res: Vec<String>)
        ensures
            res@.len() == self.spec_images().len(),
            forall|i: int| 0 <= i < res@.len() ==> #[trigger] res@[i]@ == spec_image_text(self.spec_images()[i].uri@),
    {
        let mut out: Vec<String> = Vec::new();
        let n = self.images.len();
        let mut i: usize = 0;
        while i < n
            invariant
                n == self.images@.len(),
                0 <= i <= n,
                out@.len() == i,
                forall|j: int| 0 <= j < i ==> #[trigger] out@[j]@ == spec_image_text(self.images@[j].uri@),
            decreases n - i,
        {
            let mut s = String::from_str("         {\n                \"uri\" : \"");
            s.append(self.images[i].uri.as_str());
            s.append("\"\n            }");
            out.push(s);
            i += 1;
        }
        out
    }

    /// The JSON objects of the samplers, in index order.
    pub fn write_samplers(&self) -> (res: Vec<String>)
        ensures
            res@.len() == self.spec_samplers().len(),
            forall|i: int| 0 <= i < res@.len() ==> #[trigger] res@[i]@ == spec_sampler_text(self.spec_samplers()[i]),
    {
        let mut out: Vec<String> = Vec::new();
        let n = self.samplers.len();
        let mut i: usize = 0;
        while i < n
            invariant
                n == self.samplers@.len(),
                0 <= i <= n,
                out@.len() == i,
                forall|j: int| 0 <= j < i ==> #[trigger] out@[j]@ == spec_sampler_text(self.samplers@[j]),
            decreases n - i,
        {
            let smp = self.samplers[i];
            let mut s = String::from_str("{\n                \"magFilter\" : ");
            s.append(decimal(smp.mag_filter.value()).as_str());
            s.append(",\n                \"minFilter\" : ");
            s.append(decimal(smp.min_filter.value()).as_str());
            s.append(",\n                \"wrapS\" : ");
            s.append(decimal(smp.wrap_s.value()).as_str());
            s.append(",\n                \"wrapT\" : ");
            s.append(decimal(smp.wrap_t.value()).as_str());
            s.append("\n            }");
            out.push(s);
            i += 1;
        }
        out
    }
}

} // verus!
