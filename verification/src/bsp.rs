//! Reading the lumps of a GoldSrc BSP map (version 30) from its bytes.
use vstd::prelude::*;
use crate::bytes::{bincode_i32_at, bincode_u32_at, le_i32, spec_i32_le, spec_u32_le};
use crate::bsp_records::{
    LumpRecord, BspFace, BspNode, BspLeaf, BspMarkSurface, BspSurfaceEdge, BspEdge, BspVertex,
    BspTextureInfo, BspPlane, BspModel, BspClipNode, BspTextureHeader, BspMipTextureHeader,
};
use crate::text::{null_terminated_bytes_to_str, NullTerminatedStrError, spec_nul_end, spec_valid_up_to, spec_valid_prefix_len};
use vstd::utf8::valid_utf8;
use vstd::string::StringSliceAdditionalSpecFns;

verus! {

pub const LUMP_ENTITIES: usize = 0;
pub const LUMP_PLANES: usize = 1;
pub const LUMP_TEXTURES: usize = 2;
pub const LUMP_VERTICES: usize = 3;
pub const LUMP_VISIBILITY: usize = 4;
pub const LUMP_NODES: usize = 5;
pub const LUMP_TEXINFO: usize = 6;
pub const LUMP_FACES: usize = 7;
pub const LUMP_LIGHTING: usize = 8;
pub const LUMP_CLIPNODES: usize = 9;
pub const LUMP_LEAVES: usize = 10;
pub const LUMP_MARKSURFACES: usize = 11;
pub const LUMP_EDGES: usize = 12;
pub const LUMP_SURFEDGES: usize = 13;
pub const LUMP_MODELS: usize = 14;
pub const HEADER_LUMPS: usize = 15;

/// The BSP version this reader accepts.
pub const BSP_VERSION: i32 = 30;

/// The size of the file header: a version and fifteen (offset, length) pairs.
pub const BSP_HEADER_SIZE: usize = 124;

/// The offset that the header records for lump `index`.
pub open spec fn spec_lump_offset(data: Seq<u8>, index: int) -> int {
    spec_i32_le(data, 4 + 8 * index) as int
}

/// The length that the header records for lump `index`.
pub open spec fn spec_lump_len(data: Seq<u8>, index: int) -> int {
    spec_i32_le(data, 8 + 8 * index) as int
}

/// `data` starts with a complete header of the supported version.
pub open spec fn spec_is_bsp(data: Seq<u8>) -> bool {
    data.len() >= BSP_HEADER_SIZE && spec_i32_le(data, 0) == BSP_VERSION
}

/// The header's range for lump `index` lies within `data`.
pub open spec fn spec_lump_in_bounds(data: Seq<u8>, index: int) -> bool {
    0 <= spec_lump_offset(data, index) && 0 <= spec_lump_len(data, index)
        && spec_lump_offset(data, index) + spec_lump_len(data, index) <= data.len()
}

/// The bytes of lump `index`.
pub open spec fn spec_lump(data: Seq<u8>, index: int) -> Seq<u8> {
    data.subrange(
        spec_lump_offset(data, index),
        spec_lump_offset(data, index) + spec_lump_len(data, index),
    )
}

/// The records that a lump holds: as many whole records as fit, in order.
pub open spec fn spec_records<T: LumpRecord>(lump: Seq<u8>) -> Seq<T> {
    Seq::new(lump.len() / T::spec_size(), |i: int| T::spec_decode_at(lump, i * T::spec_size()))
}

/// A lump holds as many whole records as fit, packed one after another:
/// record `i` starts `i` record sizes into the lump (20 bytes for a face, 24
/// for a node, 28 for a leaf, 2 for a mark surface, 4 for a surface edge or
/// an edge, 12 for a vertex, 40 for a texture info, 20 for a plane, 64 for a
/// model, 8 for a clip node).
pub proof fn lemma_lumps_are_packed(lump: Seq<u8>)
    ensures
        spec_records::<BspFace>(lump).len() == lump.len() / 20,
        forall|i: int| 0 <= i < lump.len() / 20 ==> #[trigger] spec_records::<BspFace>(lump)[i] == BspFace::spec_decode_at(lump, 20 * i),
        spec_records::<BspNode>(lump).len() == lump.len() / 24,
        forall|i: int| 0 <= i < lump.len() / 24 ==> #[trigger] spec_records::<BspNode>(lump)[i] == BspNode::spec_decode_at(lump, 24 * i),
        spec_records::<BspLeaf>(lump).len() == lump.len() / 28,
        forall|i: int| 0 <= i < lump.len() / 28 ==> #[trigger] spec_records::<BspLeaf>(lump)[i] == BspLeaf::spec_decode_at(lump, 28 * i),
        spec_records::<BspMarkSurface>(lump).len() == lump.len() / 2,
        forall|i: int| 0 <= i < lump.len() / 2 ==> #[trigger] spec_records::<BspMarkSurface>(lump)[i] == BspMarkSurface::spec_decode_at(lump, 2 * i),
        spec_records::<BspSurfaceEdge>(lump).len() == lump.len() / 4,
        forall|i: int| 0 <= i < lump.len() / 4 ==> #[trigger] spec_records::<BspSurfaceEdge>(lump)[i] == BspSurfaceEdge::spec_decode_at(lump, 4 * i),
        spec_records::<BspEdge>(lump).len() == lump.len() / 4,
        forall|i: int| 0 <= i < lump.len() / 4 ==> #[trigger] spec_records::<BspEdge>(lump)[i] == BspEdge::spec_decode_at(lump, 4 * i),
        spec_records::<BspVertex>(lump).len() == lump.len() / 12,
        forall|i: int| 0 <= i < lump.len() / 12 ==> #[trigger] spec_records::<BspVertex>(lump)[i] == BspVertex::spec_decode_at(lump, 12 * i),
        spec_records::<BspTextureInfo>(lump).len() == lump.len() / 40,
        forall|i: int| 0 <= i < lump.len() / 40 ==> #[trigger] spec_records::<BspTextureInfo>(lump)[i] == BspTextureInfo::spec_decode_at(lump, 40 * i),
        spec_records::<BspPlane>(lump).len() == lump.len() / 20,
        forall|i: int| 0 <= i < lump.len() / 20 ==> #[trigger] spec_records::<BspPlane>(lump)[i] == BspPlane::spec_decode_at(lump, 20 * i),
        spec_records::<BspModel>(lump).len() == lump.len() / 64,
        forall|i: int| 0 <= i < lump.len() / 64 ==> #[trigger] spec_records::<BspModel>(lump)[i] == BspModel::spec_decode_at(lump, 64 * i),
        spec_records::<BspClipNode>(lump).len() == lump.len() / 8,
        forall|i: int| 0 <= i < lump.len() / 8 ==> #[trigger] spec_records::<BspClipNode>(lump)[i] == BspClipNode::spec_decode_at(lump, 8 * i),
{
}

struct BspLumpHeader {
    offset: i32,
    len: i32,
}

struct BspHeader {
    version: i32,
    lumps: Vec<BspLumpHeader>,
}

/// A BSP map held in memory, with its parsed header.
pub struct BspReader {
    header: BspHeader,
    data: Vec<u8>,
}

proof fn lemma_record_fits(i: int, n: int, size: int, len: int)
    requires
        0 <= i < n,
        size > 0,
        n == len / size,
        len >= 0,
    ensures
        i * size + size <= len,
        (i + 1) * size == i * size + size,
{
    assert(i * size + size == (i + 1) * size) by (nonlinear_arith);
    assert((i + 1) * size <= n * size) by (nonlinear_arith)
        requires
            i + 1 <= n,
            size > 0,
    ;
    assert(n * size <= len) by (nonlinear_arith)
        requires
            n == len / size,
            size > 0,
            len >= 0,
    ;
}

/// Decodes every whole record of `raw`.
pub fn decode_records<T: LumpRecord>(raw: &[u8]) -> (res: Vec<T>)
    ensures
        res@ == spec_records::<T>(raw@),
{
    let size = T::size();
    let len = raw.len();
    let n = len / size;
    let mut out: Vec<T> = Vec::new();
    let mut i: usize = 0;
    let mut pos: usize = 0;
    while i < n
        invariant
            size as nat == T::spec_size(),
            size > 0,
            len == raw@.len(),
            n == len / size,
            0 <= i <= n,
            pos == i * size,
            out@.len() == i,
            forall|j: int| 0 <= j < i ==> out@[j] == T::spec_decode_at(raw@, j * size),
        decreases n - i,
    {
        proof {
            lemma_record_fits(i as int, n as int, size as int, len as int);
        }
        let r = T::decode_at(raw, pos);
        out.push(r);
        pos = pos + size;
        i = i + 1;
    }
    assert(out@ =~= spec_records::<T>(raw@));
    out
}

impl BspReader {
    #[verifier::type_invariant]
    spec fn inv(&self) -> bool {
        &&& spec_is_bsp(self.data@)
        &&& self.header.version == BSP_VERSION
        &&& self.header.lumps@.len() == HEADER_LUMPS
        &&& forall|i: int|
            0 <= i < HEADER_LUMPS ==> {
                &&& #[trigger] self.header.lumps@[i].offset as int == spec_lump_offset(self.data@, i)
                &&& self.header.lumps@[i].len as int == spec_lump_len(self.data@, i)
            }
    }

    /// The bytes of the map.
    pub closed spec fn bytes(&self) -> Seq<u8> {
        self.data@
    }

    /// Parses the header of `data`; `None` when `data` is too short for a
    /// header or holds another version.
    fn parse_header(data: &[u8]) -> (res: Option<BspHeader>)
        ensures
            res is Some <==> spec_is_bsp(data@),
            res matches Some(h) ==> {
                &&& h.version == BSP_VERSION
                &&& h.lumps@.len() == HEADER_LUMPS
                &&& forall|i: int|
                    0 <= i < HEADER_LUMPS ==> {
                        &&& #[trigger] h.lumps@[i].offset as int == spec_lump_offset(data@, i)
                        &&& h.lumps@[i].len as int == spec_lump_len(data@, i)
                    }
            },
    {
        let version = match bincode_i32_at(data, 0) {
            Some(v) => v,
            None => return None,
        };
        if data.len() < BSP_HEADER_SIZE || version != BSP_VERSION {
            return None;
        }
        let mut lumps: Vec<BspLumpHeader> = Vec::new();
        let mut i: usize = 0;
        while i < HEADER_LUMPS
            invariant
                data@.len() >= BSP_HEADER_SIZE,
                0 <= i <= HEADER_LUMPS,
                lumps@.len() == i,
                forall|j: int|
                    0 <= j < i ==> {
                        &&& #[trigger] lumps@[j].offset as int == spec_lump_offset(data@, j)
                        &&& lumps@[j].len as int == spec_lump_len(data@, j)
                    },
            decreases HEADER_LUMPS - i,
        {
            let offset = bincode_i32_at(data, 4 + 8 * i);
            let len = bincode_i32_at(data, 8 + 8 * i);
            match (offset, len) {
                (Some(offset), Some(len)) => {
                    lumps.push(BspLumpHeader { offset, len });
                },
                _ => {
                    return None;
                },
            }
            i += 1;
        }
        Some(BspHeader { version, lumps })
    }

    /// Takes a map's bytes and parses its header; `None` when `data` is too
    /// short for a header or holds another version.
    pub fn try_read(data: Vec<u8>) -> (res: Option<Self>)
        ensures
            res is Some <==> spec_is_bsp(data@),
            res matches Some(r) ==> r.bytes() == data@,
    {
        match Self::parse_header(data.as_slice()) {
            Some(header) => Some(BspReader { header, data }),
            None => None,
        }
    }

    /// Takes a map's bytes and parses its header.
    pub fn read(data: Vec<u8>) -> (res: Self)
        requires
            spec_is_bsp(data@),
        ensures
            res.bytes() == data@,
    {
        let header = Self::parse_header(data.as_slice());
        match header {
            Some(header) => BspReader { header, data },
            None => BspReader { header: BspHeader { version: BSP_VERSION, lumps: Vec::new() }, data },
        }
    }

    /// Whether the header's range for lump `index` lies within the map.
    pub fn lump_in_bounds(&self, index: usize) -> (res: bool)
        requires
            index < HEADER_LUMPS,
        ensures
            res == spec_lump_in_bounds(self.bytes(), index as int),
    {
        proof {
            use_type_invariant(self);
        }
        let lump = &self.header.lumps[index];
        let offset = lump.offset;
        let len = lump.len;
        offset >= 0 && len >= 0 && (offset as u64) + (len as u64) <= self.data.len() as u64
    }

    /// The bytes of lump `index`.
    pub fn read_lump_raw(&self, index: usize) -> (res: &[u8])
        requires
            index < HEADER_LUMPS,
            spec_lump_in_bounds(self.bytes(), index as int),
        ensures
            res@ == spec_lump(self.bytes(), index as int),
    {
        proof {
            use_type_invariant(self);
        }
        let lump = &self.header.lumps[index];
        let start = lump.offset as usize;
        let end = start + lump.len as usize;
        &self.data.as_slice()[start..end]
    }

    /// The records of lump `index`.
    fn read_lump<T: LumpRecord>(&self, index: usize) -> (res: Vec<T>)
        requires
            index < HEADER_LUMPS,
            spec_lump_in_bounds(self.bytes(), index as int),
        ensures
            res@ == spec_records::<T>(spec_lump(self.bytes(), index as int)),
    {
        let raw = self.read_lump_raw(index);
        decode_records::<T>(raw)
    }

    pub fn read_nodes(&self) -> (res: Vec<BspNode>)
        requires
            spec_lump_in_bounds(self.bytes(), LUMP_NODES as int),
        ensures
            res@ == spec_records::<BspNode>(spec_lump(self.bytes(), LUMP_NODES as int)),
    {
        self.read_lump(LUMP_NODES)
    }

    pub fn read_leaves(&self) -> (res: Vec<BspLeaf>)
        requires
            spec_lump_in_bounds(self.bytes(), LUMP_LEAVES as int),
        ensures
            res@ == spec_records::<BspLeaf>(spec_lump(self.bytes(), LUMP_LEAVES as int)),
    {
        self.read_lump(LUMP_LEAVES)
    }

    pub fn read_mark_surfaces(&self) -> (res: Vec<BspMarkSurface>)
        requires
            spec_lump_in_bounds(self.bytes(), LUMP_MARKSURFACES as int),
        ensures
            res@ == spec_records::<BspMarkSurface>(spec_lump(self.bytes(), LUMP_MARKSURFACES as int)),
    {
        self.read_lump(LUMP_MARKSURFACES)
    }

    pub fn read_faces(&self) -> (res: Vec<BspFace>)
        requires
            spec_lump_in_bounds(self.bytes(), LUMP_FACES as int),
        ensures
            res@ == spec_records::<BspFace>(spec_lump(self.bytes(), LUMP_FACES as int)),
    {
        self.read_lump(LUMP_FACES)
    }

    pub fn read_edges(&self) -> (res: Vec<BspEdge>)
        requires
            spec_lump_in_bounds(self.bytes(), LUMP_EDGES as int),
        ensures
            res@ == spec_records::<BspEdge>(spec_lump(self.bytes(), LUMP_EDGES as int)),
    {
        self.read_lump(LUMP_EDGES)
    }

    pub fn read_surface_edges(&self) -> (res: Vec<BspSurfaceEdge>)
        requires
            spec_lump_in_bounds(self.bytes(), LUMP_SURFEDGES as int),
        ensures
            res@ == spec_records::<BspSurfaceEdge>(spec_lump(self.bytes(), LUMP_SURFEDGES as int)),
    {
        self.read_lump(LUMP_SURFEDGES)
    }

    pub fn read_vertices(&self) -> (res: Vec<BspVertex>)
        requires
            spec_lump_in_bounds(self.bytes(), LUMP_VERTICES as int),
        ensures
            res@ == spec_records::<BspVertex>(spec_lump(self.bytes(), LUMP_VERTICES as int)),
    {
        self.read_lump(LUMP_VERTICES)
    }

    pub fn read_texture_infos(&self) -> (res: Vec<BspTextureInfo>)
        requires
            spec_lump_in_bounds(self.bytes(), LUMP_TEXINFO as int),
        ensures
            res@ == spec_records::<BspTextureInfo>(spec_lump(self.bytes(), LUMP_TEXINFO as int)),
    {
        self.read_lump(LUMP_TEXINFO)
    }

    pub fn read_planes(&self) -> (res: Vec<BspPlane>)
        requires
            spec_lump_in_bounds(self.bytes(), LUMP_PLANES as int),
        ensures
            res@ == spec_records::<BspPlane>(spec_lump(self.bytes(), LUMP_PLANES as int)),
    {
        self.read_lump(LUMP_PLANES)
    }

    pub fn read_models(&self) -> (res: Vec<BspModel>)
        requires
            spec_lump_in_bounds(self.bytes(), LUMP_MODELS as int),
        ensures
            res@ == spec_records::<BspModel>(spec_lump(self.bytes(), LUMP_MODELS as int)),
    {
        self.read_lump(LUMP_MODELS)
    }

    pub fn read_clip_nodes(&self) -> (res: Vec<BspClipNode>)
        requires
            spec_lump_in_bounds(self.bytes(), LUMP_CLIPNODES as int),
        ensures
            res@ == spec_records::<BspClipNode>(spec_lump(self.bytes(), LUMP_CLIPNODES as int)),
    {
        self.read_lump(LUMP_CLIPNODES)
    }

    /// The raw bytes of the entity lump.
    pub fn read_entities(&self) -> (res: &[u8])
        requires
            spec_lump_in_bounds(self.bytes(), LUMP_ENTITIES as int),
        ensures
            res@ == spec_lump(self.bytes(), LUMP_ENTITIES as int),
    {
        self.read_lump_raw(LUMP_ENTITIES)
    }

    /// The entity lump as text, up to its terminating zero byte.
    pub fn read_entities_str(&self) -> (res: Result<&str, NullTerminatedStrError>)
        requires
            spec_lump_in_bounds(self.bytes(), LUMP_ENTITIES as int),
        ensures
            ({
                let lump = spec_lump(self.bytes(), LUMP_ENTITIES as int);
                let text = lump.subrange(0, spec_nul_end(lump));
                &&& res is Ok <==> valid_utf8(text)
                &&& res matches Ok(s) ==> s.spec_bytes() == text
                &&& res matches Err(e) ==> e.end == spec_nul_end(lump) && spec_valid_up_to(e.str_error)
                    == spec_valid_prefix_len(text)
            }),
    {
        null_terminated_bytes_to_str(self.read_lump_raw(LUMP_ENTITIES))
    }

    /// The number of textures that the texture lump declares.
    pub fn read_textures_header(&self) -> (res: BspTextureHeader)
        requires
            spec_lump_in_bounds(self.bytes(), LUMP_TEXTURES as int),
            spec_lump(self.bytes(), LUMP_TEXTURES as int).len() >= 4,
        ensures
            res.num_textures == spec_u32_le(spec_lump(self.bytes(), LUMP_TEXTURES as int), 0),
    {
        let raw = self.read_lump_raw(LUMP_TEXTURES);
        match bincode_u32_at(raw, 0) {
            Some(num_textures) => BspTextureHeader { num_textures },
            None => BspTextureHeader { num_textures: 0 },
        }
    }

    /// Whether the texture lump holds its count and the whole offset table
    /// that the count announces.
    pub fn textures_in_bounds(&self) -> (res: bool)
        ensures
            res == (spec_lump_in_bounds(self.bytes(), LUMP_TEXTURES as int) && spec_texture_table_fits(
                spec_lump(self.bytes(), LUMP_TEXTURES as int),
            )),
    {
        if !self.lump_in_bounds(LUMP_TEXTURES) {
            return false;
        }
        let raw = self.read_lump_raw(LUMP_TEXTURES);
        match bincode_u32_at(raw, 0) {
            Some(n) => 4 + 4 * (n as u64) <= raw.len() as u64,
            None => false,
        }
    }

    /// A reader over the textures of the texture lump.
    pub fn read_textures<'a>(&'a self) -> (res: BspTextureReader<'a>)
        requires
            spec_lump_in_bounds(self.bytes(), LUMP_TEXTURES as int),
            spec_texture_table_fits(spec_lump(self.bytes(), LUMP_TEXTURES as int)),
        ensures
            res.lump() == spec_lump(self.bytes(), LUMP_TEXTURES as int),
            res.offsets() == spec_texture_offsets(spec_lump(self.bytes(), LUMP_TEXTURES as int)),
    {
        let raw_data = self.read_lump_raw(LUMP_TEXTURES);
        let num = match bincode_u32_at(raw_data, 0) {
            Some(n) => n,
            None => 0,
        };
        let n = num as usize;
        let rlen = raw_data.len();
        let mut offsets: Vec<i32> = Vec::new();
        let mut i: usize = 0;
        while i < n
            invariant
                rlen == raw_data@.len(),
                n == spec_u32_le(raw_data@, 0),
                4 + 4 * n <= raw_data@.len(),
                0 <= i <= n,
                offsets@.len() == i,
                forall|j: int| 0 <= j < i ==> offsets@[j] == spec_i32_le(raw_data@, 4 + 4 * j),
            decreases n - i,
        {
            offsets.push(le_i32(raw_data, 4 + 4 * i));
            i += 1;
        }
        proof {
            use_type_invariant(self);
            assert(offsets@ =~= spec_texture_offsets(raw_data@));
        }
        BspTextureReader::new(offsets, raw_data)
    }

    /// The raw bytes of the lighting lump.
    pub fn read_lighting_data(&self) -> (res: &[u8])
        requires
            spec_lump_in_bounds(self.bytes(), LUMP_LIGHTING as int),
        ensures
            res@ == spec_lump(self.bytes(), LUMP_LIGHTING as int),
    {
        self.read_lump_raw(LUMP_LIGHTING)
    }
}

/// The texture lump starts with a count and holds the whole table of offsets
/// that follows it.
pub open spec fn spec_texture_table_fits(lump: Seq<u8>) -> bool {
    lump.len() >= 4 && 4 + 4 * spec_u32_le(lump, 0) <= lump.len()
}

/// The offset of each texture within the texture lump.
pub open spec fn spec_texture_offsets(lump: Seq<u8>) -> Seq<i32> {
    Seq::new(spec_u32_le(lump, 0) as nat, |j: int| spec_i32_le(lump, 4 + 4 * j))
}

/// The textures stored in the texture lump, found through its offset table.
pub struct BspTextureReader<'a> {
    offsets: Vec<i32>,
    lump_data: &'a [u8],
}

impl<'a> BspTextureReader<'a> {
    #[verifier::type_invariant]
    spec fn inv(&self) -> bool {
        self.lump_data@.len() <= i32::MAX
    }

    /// The offset table.
    pub closed spec fn offsets(&self) -> Seq<i32> {
        self.offsets@
    }

    /// The bytes of the texture lump.
    pub closed spec fn lump(&self) -> Seq<u8> {
        self.lump_data@
    }

    /// Where the data of texture `index` ends: at the next texture's offset,
    /// or at the end of the lump for the last one.
    pub open spec fn spec_entry_end(&self, index: int) -> int {
        if index + 1 < self.offsets().len() {
            self.offsets()[index + 1] as int
        } else {
            self.lump().len() as int
        }
    }

    /// Texture `index` is either absent, or its data range lies within the
    /// lump and is large enough for a texture header.
    pub open spec fn spec_entry_ok(&self, index: int) -> bool {
        index >= self.offsets().len() || {
            let start = self.offsets()[index] as int;
            let end = self.spec_entry_end(index);
            0 <= start && start + 40 <= end && end <= self.lump().len()
        }
    }

    fn new(offsets: Vec<i32>, lump_data: &'a [u8]) -> (res: Self)
        requires
            lump_data@.len() <= i32::MAX,
        ensures
            res.offsets() == offsets@,
            res.lump() == lump_data@,
    {
        Self { offsets, lump_data }
    }

    /// The number of textures.
    pub fn len(&self) -> (res: usize)
        ensures
            res == self.offsets().len(),
    {
        self.offsets.len()
    }

    /// Whether [`Self::get`] may be called with `index`.
    pub fn entry_ok(&self, index: usize) -> (res: bool)
        ensures
            res == self.spec_entry_ok(index as int),
    {
        proof {
            use_type_invariant(self);
        }
        if index >= self.offsets.len() {
            return true;
        }
        let start = self.offsets[index] as i64;
        let end: i64 = if index + 1 < self.offsets.len() {
            self.offsets[index + 1] as i64
        } else {
            self.lump_data.len() as i64
        };
        0 <= start && start + 40 <= end && end <= self.lump_data.len() as i64
    }

    /// The texture at `index`, or `None` past the last texture.
    pub fn get(&self, index: usize) -> (res: Option<BspMipTextureReader<'a>>)
        requires
            self.spec_entry_ok(index as int),
        ensures
            res is None <==> index >= self.offsets().len(),
            res matches Some(r) ==> r.data() == self.lump().subrange(
                self.offsets()[index as int] as int,
                self.spec_entry_end(index as int),
            ) && r.spec_header() == BspMipTextureHeader::spec_decode_at(r.data(), 0),
    {
        let data = match self.get_raw_data(index) {
            Some(d) => d,
            None => return None,
        };
        let header = BspMipTextureHeader::decode_at(data, 0);
        Some(BspMipTextureReader::new(header, data))
    }

    fn get_raw_data(&self, index: usize) -> (res: Option<&'a [u8]>)
        requires
            self.spec_entry_ok(index as int),
        ensures
            res is None <==> index >= self.offsets().len(),
            res matches Some(d) ==> d@ == self.lump().subrange(
                self.offsets()[index as int] as int,
                self.spec_entry_end(index as int),
            ),
    {
        proof {
            use_type_invariant(self);
        }
        if index >= self.offsets.len() {
            return None;
        }
        let offset = self.offsets[index] as usize;
        let end = if index + 1 < self.offsets.len() {
            self.offsets[index + 1] as usize
        } else {
            self.lump_data.len()
        };
        Some(&self.lump_data[offset..end])
    }
}

/// One texture of the texture lump: its header and its data.
pub struct BspMipTextureReader<'a> {
    header: BspMipTextureHeader,
    data: &'a [u8],
}

/// The factor by which mip level `index` divides the texture's width and height.
pub open spec fn spec_mip_level(index: int) -> int {
    if index == 0 {
        1
    } else if index == 1 {
        2
    } else if index == 2 {
        4
    } else {
        8
    }
}

fn mip_level(index: usize) -> (res: Option<usize>)
    ensures
        res is Some <==> index < 4,
        res matches Some(m) ==> m == spec_mip_level(index as int),
{
    if index == 0 {
        Some(1)
    } else if index == 1 {
        Some(2)
    } else if index == 2 {
        Some(4)
    } else if index == 3 {
        Some(8)
    } else {
        None
    }
}

/// The width of mip level `index` of a texture whose header is `h`.
pub open spec fn spec_mip_width(h: BspMipTextureHeader, index: int) -> int {
    h.width as int / spec_mip_level(index)
}

/// The height of mip level `index` of a texture whose header is `h`.
pub open spec fn spec_mip_height(h: BspMipTextureHeader, index: int) -> int {
    h.height as int / spec_mip_level(index)
}

/// Where the palette starts: two bytes after the end of the smallest mip level.
pub open spec fn spec_palette_offset(h: BspMipTextureHeader) -> int {
    h.offsets[3] as int + spec_mip_width(h, 3) * spec_mip_height(h, 3) + 2
}

/// The size of a palette: 256 RGB colours.
pub const PALETTE_LEN: usize = 768;

impl<'a> BspMipTextureReader<'a> {
    #[verifier::type_invariant]
    spec fn inv(&self) -> bool {
        &&& self.data@.len() >= 40
        &&& self.header == BspMipTextureHeader::spec_decode_at(self.data@, 0)
    }

    /// The bytes of this texture, starting with its header.
    pub closed spec fn data(&self) -> Seq<u8> {
        self.data@
    }

    /// The header of this texture.
    pub closed spec fn spec_header(&self) -> BspMipTextureHeader {
        self.header
    }

    fn new(header: BspMipTextureHeader, data: &'a [u8]) -> (res: Self)
        requires
            data@.len() >= 40,
            header == BspMipTextureHeader::spec_decode_at(data@, 0),
        ensures
            res.data() == data@,
            res.spec_header() == header,
    {
        Self { header, data }
    }

    pub fn raw_data(&self) -> (res: &[u8])
        ensures
            res@ == self.data(),
    {
        self.data
    }

    pub fn header(&self) -> (res: &BspMipTextureHeader)
        ensures
            *res == self.spec_header(),
    {
        &self.header
    }

    /// The texture's name: its 16 name bytes up to the first zero byte.
    pub fn get_image_name(&self) -> (res: Result<&'a str, NullTerminatedStrError>)
        ensures
            ({
                let name = self.data().subrange(0, 16);
                let text = name.subrange(0, spec_nul_end(name));
                &&& res is Ok <==> valid_utf8(text)
                &&& res matches Ok(s) ==> s.spec_bytes() == text
                &&& res matches Err(e) ==> e.end == spec_nul_end(name) && spec_valid_up_to(e.str_error)
                    == spec_valid_prefix_len(text)
            }),
    {
        proof {
            use_type_invariant(self);
        }
        null_terminated_bytes_to_str(&self.data[0..16])
    }

    /// Whether the image is stored in the map rather than in a WAD archive.
    pub fn has_local_image_data(&self) -> (res: bool)
        ensures
            res == (self.spec_header().offsets[0] != 0),
    {
        let offset = self.header.offsets[0];
        offset != 0
    }

    /// Whether [`Self::get_image`] may be called with `index`: an absent
    /// level, or one whose pixels lie within the texture's data.
    pub open spec fn spec_image_fits(&self, index: int) -> bool {
        index >= 4 || self.spec_header().offsets[index] == 0 || self.spec_header().offsets[index] as int
            + spec_mip_width(self.spec_header(), index) * spec_mip_height(self.spec_header(), index)
            <= self.data().len()
    }

    /// Mip level `index` of the image, or `None` when the level does not
    /// exist or lives in a WAD archive (offset 0).
    pub fn get_image(&self, index: usize) -> (res: Option<BspBitmap<'a>>)
        requires
            self.spec_image_fits(index as int),
        ensures
            res is None <==> (index >= 4 || self.spec_header().offsets[index as int] == 0),
            res matches Some(b) ==> {
                let off = self.spec_header().offsets[index as int] as int;
                let w = spec_mip_width(self.spec_header(), index as int);
                let h = spec_mip_height(self.spec_header(), index as int);
                &&& b.spec_width() == w
                &&& b.spec_height() == h
                &&& b.spec_data() == self.data().subrange(off, off + w * h)
            },
    {
        if index >= 4 {
            return None;
        }
        let offset = self.header.offsets[index] as usize;
        if offset == 0 {
            return None;
        }
        let mip_level = match mip_level(index) {
            Some(m) => m,
            None => return None,
        };
        let _dlen = self.data.len();
        let width = self.header.width as usize / mip_level;
        let height = self.header.height as usize / mip_level;
        assert(width * height <= self.data@.len());
        let len = width * height;
        Some(BspBitmap::new(width, height, &self.data[offset..offset + len]))
    }

    /// Whether [`Self::read_palette`] may be called: the palette after the
    /// smallest mip level lies within the texture's data.
    pub open spec fn spec_palette_fits(&self) -> bool {
        spec_palette_offset(self.spec_header()) + PALETTE_LEN <= self.data().len()
    }

    /// The palette stored after the smallest mip level.
    pub fn read_palette(&self) -> (res: BspPaletteReader<'a>)
        requires
            self.spec_palette_fits(),
        ensures
            res.data() == self.data().subrange(
                spec_palette_offset(self.spec_header()),
                spec_palette_offset(self.spec_header()) + PALETTE_LEN,
            ),
    {
        let last_image_offset = self.header.offsets[3] as usize;
        let mip_level: usize = 8;
        let _dlen = self.data.len();
        let width = self.header.width as usize / mip_level;
        let height = self.header.height as usize / mip_level;
        assert(width * height <= self.data@.len());
        let image_len = width * height;

        let palette_offset = last_image_offset + image_len + 2;
        let palette_len = PALETTE_LEN;

        BspPaletteReader::new(&self.data[palette_offset..palette_offset + palette_len])
    }
}

/// The colours of a texture's palette, three bytes each.
pub struct BspPaletteReader<'a> {
    data: &'a [u8],
}

impl<'a> BspPaletteReader<'a> {
    pub closed spec fn data(&self) -> Seq<u8> {
        self.data@
    }

    fn new(data: &'a [u8]) -> (res: Self)
        ensures
            res.data() == data@,
    {
        Self { data }
    }

    /// Colour `index` of the palette.
    pub fn get(&self, index: usize) -> (res: BspPixel)
        requires
            3 * index + 3 <= self.data().len(),
        ensures
            res.r == self.data()[3 * index],
            res.g == self.data()[3 * index + 1],
            res.b == self.data()[3 * index + 2],
    {
        let _dlen = self.data.len();
        let offset = index * 3;
        let data = &self.data[offset..offset + 3];
        BspPixel { r: data[0], g: data[1], b: data[2] }
    }
}

/// A colour.
pub struct BspPixel {
    pub r: u8,
    pub g: u8,
    pub b: u8,
}

/// The pixels of one mip level: one palette index per pixel, row by row.
pub struct BspBitmap<'a> {
    width: usize,
    height: usize,
    data: &'a [u8],
}

impl<'a> BspBitmap<'a> {
    pub closed spec fn spec_width(&self) -> int {
        self.width as int
    }

    pub closed spec fn spec_height(&self) -> int {
        self.height as int
    }

    pub closed spec fn spec_data(&self) -> Seq<u8> {
        self.data@
    }

    fn new(width: usize, height: usize, data: &'a [u8]) -> (res: Self)
        ensures
            res.spec_width() == width,
            res.spec_height() == height,
            res.spec_data() == data@,
    {
        Self { width, height, data }
    }

    /// The width in pixels.
    pub fn width(&self) -> (res: usize)
        ensures
            res == self.spec_width(),
    {
        self.width
    }

    /// The height in pixels.
    pub fn height(&self) -> (res: usize)
        ensures
            res == self.spec_height(),
    {
        self.height
    }

    /// The palette indices, row by row.
    pub fn data(&self) -> (res: &'a [u8])
        ensures
            res@ == self.spec_data(),
    {
        self.data
    }
}

/// Conversion from a value stored in a file to the variant it stands for.
pub trait FromValue<T: Sized + Copy>: Sized {
    fn from_value(value: T) -> Option<Self>;
}

/// What a leaf of the map contains; stored as a negative number.
#[derive(Copy, Clone, Debug, PartialEq, Eq, Structural)]
pub enum BspContents {
    Empty,
    Solid,
    Water,
    Slime,
    Lava,
    Sky,
    Origin,
    Clip,
    Current0,
    Current90,
    Current180,
    Current270,
    CurrentUp,
    CurrentDown,
    Translucent,
}

impl BspContents {
    /// The number that stands for each kind of contents, from -1 (`Empty`)
    /// down to -15 (`Translucent`).
    pub open spec fn spec_value(self) -> i32 {
        match self {
            BspContents::Empty => -1i32,
            BspContents::Solid => -2i32,
            BspContents::Water => -3i32,
            BspContents::Slime => -4i32,
            BspContents::Lava => -5i32,
            BspContents::Sky => -6i32,
            BspContents::Origin => -7i32,
            BspContents::Clip => -8i32,
            BspContents::Current0 => -9i32,
            BspContents::Current90 => -10i32,
            BspContents::Current180 => -11i32,
            BspContents::Current270 => -12i32,
            BspContents::CurrentUp => -13i32,
            BspContents::CurrentDown => -14i32,
            BspContents::Translucent => -15i32,
        }
    }

    /// The number that stands for these contents.
    pub fn value(self) -> (res: i32)
        ensures
            res == self.spec_value(),
    {
        match self {
            BspContents::Empty => -1,
            BspContents::Solid => -2,
            BspContents::Water => -3,
            BspContents::Slime => -4,
            BspContents::Lava => -5,
            BspContents::Sky => -6,
            BspContents::Origin => -7,
            BspContents::Clip => -8,
            BspContents::Current0 => -9,
            BspContents::Current90 => -10,
            BspContents::Current180 => -11,
            BspContents::Current270 => -12,
            BspContents::CurrentUp => -13,
            BspContents::CurrentDown => -14,
            BspContents::Translucent => -15,
        }
    }
}

impl FromValue<i32> for BspContents {
    /// The contents that `value` stands for; `None` outside -15..=-1.
    fn from_value(value: i32) -> (res: Option<Self>)
        ensures
            res is Some <==> -15 <= value <= -1,
            res matches Some(c) ==> c.spec_value() == value,
    {
        match value {
            -1 => Some(BspContents::Empty),
            -2 => Some(BspContents::Solid),
            -3 => Some(BspContents::Water),
            -4 => Some(BspContents::Slime),
            -5 => Some(BspContents::Lava),
            -6 => Some(BspContents::Sky),
            -7 => Some(BspContents::Origin),
            -8 => Some(BspContents::Clip),
            -9 => Some(BspContents::Current0),
            -10 => Some(BspContents::Current90),
            -11 => Some(BspContents::Current180),
            -12 => Some(BspContents::Current270),
            -13 => Some(BspContents::CurrentUp),
            -14 => Some(BspContents::CurrentDown),
            -15 => Some(BspContents::Translucent),
            _ => None,
        }
    }
}

/// The value of each kind of contents converts back to that kind.
pub proof fn lemma_contents_value_round_trip(c: BspContents)
    ensures
        -15 <= c.spec_value() <= -1,
        forall|d: BspContents| d.spec_value() == c.spec_value() ==> d == c,
{
}

impl BspLeaf {
    /// What this leaf contains.
    pub fn contents(&self) -> (res: BspContents)
        requires
            -15 <= self.contents <= -1,
        ensures
            res.spec_value() == self.contents,
    {
        match BspContents::from_value(self.contents) {
            Some(c) => c,
            None => BspContents::Empty,
        }
    }
}

} // verus!
