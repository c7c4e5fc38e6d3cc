//! WAD3 texture archives: the directory of entries and the decoding of
//! mipmapped textures, decals, plain images and fonts.
use vstd::prelude::*;
use vstd::utf8::*;
use vstd::string::StringSliceAdditionalSpecFns;
use crate::bytes::{
    bincode_u32_at, bincode_bool_at, bincode_i16_at, byteorder_u16_at, spec_u32_le, spec_u16_le, spec_bool_byte, byte_array_16,
    le_u16, le_u32, spec_bytes2, spec_bytes4, lemma_byte_values, lemma_two_byte_values,
};
use crate::image_buf::{RgbaImage, image_bytes, image_size};
use crate::palette::{create_image, create_image_greyscale, create_image_with_alpha_key, spec_rgba, spec_grey_rgba, spec_keyed_rgba, spec_palette_covers};
use crate::bsp::spec_mip_level;
use vstd::slice::slice_to_vec;
use crate::text::{spec_trim_nul, utf8_name, str_eq};

verus! {

broadcast use group_utf8_lib;

/// The kind of an archive entry.
#[derive(Copy, Clone, Debug, PartialEq, Eq, Structural)]
pub enum TextureType {
    Decal,
    Image,
    MipmappedImage,
    Font,
}

impl TextureType {
    /// The directory byte that marks each kind.
    pub open spec fn spec_value(self) -> u8 {
        match self {
            TextureType::Decal => 0x40u8,
            TextureType::Image => 0x42u8,
            TextureType::MipmappedImage => 0x43u8,
            TextureType::Font => 0x46u8,
        }
    }

    /// The directory byte that marks this kind.
    pub fn value(self) -> (res: u8)
        ensures
            res == self.spec_value(),
    {
        match self {
            TextureType::Decal => 0x40,
            TextureType::Image => 0x42,
            TextureType::MipmappedImage => 0x43,
            TextureType::Font => 0x46,
        }
    }
}

/// The kind that a directory byte marks, if any.
pub open spec fn spec_texture_type(b: u8) -> Option<TextureType> {
    if b == 0x40 {
        Some(TextureType::Decal)
    } else if b == 0x42 {
        Some(TextureType::Image)
    } else if b == 0x43 {
        Some(TextureType::MipmappedImage)
    } else if b == 0x46 {
        Some(TextureType::Font)
    } else {
        None
    }
}

fn texture_type_from_byte(b: u8) -> (res: Option<TextureType>)
    ensures
        res == spec_texture_type(b),
{
    if b == 0x40 {
        Some(TextureType::Decal)
    } else if b == 0x42 {
        Some(TextureType::Image)
    } else if b == 0x43 {
        Some(TextureType::MipmappedImage)
    } else if b == 0x46 {
        Some(TextureType::Font)
    } else {
        None
    }
}

/// The size of the archive header: magic, entry count and directory offset.
pub const WAD_HEADER_SIZE: usize = 12;

/// The size of one directory entry.
pub const WAD_DIRECTORY_SIZE: usize = 32;

/// Where directory entry `i` starts.
pub open spec fn spec_dir_pos(b: Seq<u8>, i: int) -> int {
    spec_u32_le(b, 8) + WAD_DIRECTORY_SIZE * i
}

/// The number of directory entries.
pub open spec fn spec_num_dir(b: Seq<u8>) -> int {
    spec_u32_le(b, 4) as int
}


/// The directory entry at `pos` is complete, its compression flag is a
/// valid `bool`, its 16 name bytes are valid UTF-8 and its kind is known.
pub open spec fn spec_dir_ok(b: Seq<u8>, pos: int) -> bool {
    &&& 0 <= pos
    &&& pos + WAD_DIRECTORY_SIZE <= b.len()
    &&& spec_bool_byte(b[pos + 13]) is Some
    &&& valid_utf8(b.subrange(pos + 16, pos + 32))
    &&& spec_texture_type(b[pos + 12]) is Some
}

/// `b` starts with the magic `WAD3` and a directory of well-formed entries.
pub open spec fn spec_is_wad(b: Seq<u8>) -> bool {
    &&& b.len() >= WAD_HEADER_SIZE
    &&& b[0] == 87 && b[1] == 65 && b[2] == 68 && b[3] == 51
    &&& forall|i: int| 0 <= i < spec_num_dir(b) ==> spec_dir_ok(b, #[trigger] spec_dir_pos(b, i))
}

/// A directory entry as stored in the archive.
#[derive(Copy, Clone)]
pub struct WadDirectory {
    file_position: u32,
    disk_size: u32,
    sizes: u32,
    dir_type: u8,
    compression: bool,
    _dummy: i16,
    name: [u8; 16],
}

impl WadDirectory {
    pub closed spec fn spec_file_position(&self) -> u32 {
        self.file_position
    }

    pub closed spec fn spec_disk_size(&self) -> u32 {
        self.disk_size
    }
}

/// One entry of the archive: its name, its kind and where its data lies.
#[derive(Clone)]
pub struct WadFileInfo {
    pub name: String,
    pub texture_type: TextureType,
    info: WadDirectory,
}

impl WadFileInfo {
    /// Where the entry's data starts in the archive.
    pub closed spec fn spec_file_position(&self) -> u32 {
        self.info.spec_file_position()
    }

    /// The size of the entry's data in the archive.
    pub closed spec fn spec_disk_size(&self) -> u32 {
        self.info.spec_disk_size()
    }

    /// The entry's name.
    pub closed spec fn spec_name(&self) -> Seq<char> {
        self.name@
    }

    /// The entry's kind.
    pub closed spec fn spec_kind(&self) -> TextureType {
        self.texture_type
    }

    /// The entry's kind.
    pub fn kind(&self) -> (res: TextureType)
        ensures
            res == self.spec_kind(),
    {
        self.texture_type
    }

    /// Whether the entry is named `key`.
    pub fn is_named(&self, key: &str) -> (res: bool)
        ensures
            res == (self.spec_name() == key@),
    {
        str_eq(self.name.as_str(), key)
    }
}

/// `info` is the entry that the directory of `b` holds at `pos`.
pub open spec fn spec_entry_matches(info: WadFileInfo, b: Seq<u8>, pos: int) -> bool {
    &&& info.spec_name() == decode_utf8(spec_trim_nul(b.subrange(pos + 16, pos + 32)))
    &&& spec_texture_type(b[pos + 12]) == Some(info.spec_kind())
    &&& info.spec_file_position() == spec_u32_le(b, pos)
    &&& info.spec_disk_size() == spec_u32_le(b, pos + 4)
}

/// `files` are the directory entries of `b`, in order.
pub open spec fn spec_files_match(files: Seq<WadFileInfo>, b: Seq<u8>) -> bool {
    &&& files.len() == spec_num_dir(b)
    &&& forall|i: int| 0 <= i < files.len() ==> spec_entry_matches(#[trigger] files[i], b, spec_dir_pos(b, i))
}

/// The directory of an archive: entry `i` is the 32 bytes from the
/// directory offset (the four bytes at 8) plus `32 i`; its data starts at
/// the four bytes at 0 of the entry and is as long as the four bytes at 4,
/// and its kind is the byte at 12 (0x40 a decal, 0x42 an image, 0x43 a
/// mipmapped texture, 0x46 a font).
pub proof fn lemma_directory_layout(files: Seq<WadFileInfo>, b: Seq<u8>)
    requires
        spec_is_wad(b),
        spec_files_match(files, b),
    ensures
        files.len() == spec_bytes4(b, 4),
        forall|i: int|
            0 <= i < files.len() ==> {
                let p = spec_bytes4(b, 8) + 32 * i;
                &&& (#[trigger] files[i]).spec_file_position() as int == spec_bytes4(b, p)
                &&& files[i].spec_disk_size() as int == spec_bytes4(b, p + 4)
                &&& b[p + 12] == 0x40 ==> files[i].spec_kind() == TextureType::Decal
                &&& b[p + 12] == 0x42 ==> files[i].spec_kind() == TextureType::Image
                &&& b[p + 12] == 0x43 ==> files[i].spec_kind() == TextureType::MipmappedImage
                &&& b[p + 12] == 0x46 ==> files[i].spec_kind() == TextureType::Font
            },
{
    lemma_byte_values(b, 4);
    lemma_byte_values(b, 8);
    assert forall|i: int| 0 <= i < files.len() implies {
        let p = spec_bytes4(b, 8) + 32 * i;
        &&& (#[trigger] files[i]).spec_file_position() as int == spec_bytes4(b, p)
        &&& files[i].spec_disk_size() as int == spec_bytes4(b, p + 4)
        &&& b[p + 12] == 0x40 ==> files[i].spec_kind() == TextureType::Decal
        &&& b[p + 12] == 0x42 ==> files[i].spec_kind() == TextureType::Image
        &&& b[p + 12] == 0x43 ==> files[i].spec_kind() == TextureType::MipmappedImage
        &&& b[p + 12] == 0x46 ==> files[i].spec_kind() == TextureType::Font
    } by {
        let p = spec_dir_pos(b, i);
        assert(spec_dir_ok(b, p));
        assert(spec_entry_matches(files[i], b, p));
        lemma_byte_values(b, p);
        lemma_byte_values(b, p + 4);
    }
}

/// A WAD3 archive held in memory, with its directory.
pub struct WadArchive {
    pub files: Vec<WadFileInfo>,
    raw_data: Vec<u8>,
}

/// Reads the name of a directory entry: its 16 bytes as UTF-8, without
/// leading and trailing zero bytes.
fn read_entry_name(name_bytes: &[u8; 16]) -> (res: Option<String>)
    ensures
        res is Some <==> valid_utf8(name_bytes@),
        res matches Some(s) ==> s@ == decode_utf8(spec_trim_nul(name_bytes@)),
{
    utf8_name(name_bytes.as_slice())
}

/// Reads the directory entry at `pos`; `None` when [`spec_dir_ok`] fails.
fn read_entry(b: &[u8], pos: usize) -> (res: Option<WadFileInfo>)
    ensures
        res is Some <==> spec_dir_ok(b@, pos as int),
        res matches Some(info) ==> spec_entry_matches(info, b@, pos as int),
{
    let len = b.len();
    if pos > len || len - pos < WAD_DIRECTORY_SIZE {
        return None;
    }
    let file_position = match bincode_u32_at(b, pos) {
        Some(v) => v,
        None => return None,
    };
    let disk_size = match bincode_u32_at(b, pos + 4) {
        Some(v) => v,
        None => return None,
    };
    let sizes = match bincode_u32_at(b, pos + 8) {
        Some(v) => v,
        None => return None,
    };
    let dir_type = b[pos + 12];
    let compression = match bincode_bool_at(b, pos + 13) {
        Some(v) => v,
        None => return None,
    };
    let _dummy = match bincode_i16_at(b, pos + 14) {
        Some(v) => v,
        None => return None,
    };
    let name = byte_array_16(b, pos + 16);
    let name_string = match read_entry_name(&name) {
        Some(s) => s,
        None => return None,
    };
    let texture_type = match texture_type_from_byte(dir_type) {
        Some(t) => t,
        None => return None,
    };
    Some(WadFileInfo {
        name: name_string,
        texture_type,
        info: WadDirectory { file_position, disk_size, sizes, dir_type, compression, _dummy, name },
    })
}

/// Whether `b` is a well-formed archive: the magic `WAD3`, then a directory
/// of complete entries of known kinds with UTF-8 names (see [`spec_is_wad`]).
pub fn is_wad(b: &[u8]) -> (res: bool)
    ensures
        res == spec_is_wad(b@),
{
    let len = b.len();
    if len < WAD_HEADER_SIZE {
        return false;
    }
    if !(b[0] == 87 && b[1] == 65 && b[2] == 68 && b[3] == 51) {
        return false;
    }
    let num_dir = le_u32(b, 4);
    let dir_offset = le_u32(b, 8);
    let mut i: u32 = 0;
    let mut pos: u64 = dir_offset as u64;
    while i < num_dir
        invariant
            len == b@.len(),
            len >= WAD_HEADER_SIZE,
            b[0] == 87 && b[1] == 65 && b[2] == 68 && b[3] == 51,
            num_dir == spec_num_dir(b@),
            dir_offset == spec_u32_le(b@, 8),
            0 <= i <= num_dir,
            pos == spec_dir_pos(b@, i as int),
            forall|j: int| 0 <= j < i ==> spec_dir_ok(b@, #[trigger] spec_dir_pos(b@, j)),
        decreases num_dir - i,
    {
        if pos > len as u64 {
            assert(!spec_dir_ok(b@, spec_dir_pos(b@, i as int)));
            return false;
        }
        if read_entry(b, pos as usize).is_none() {
            assert(!spec_dir_ok(b@, spec_dir_pos(b@, i as int)));
            return false;
        }
        i = i + 1;
        pos = pos + WAD_DIRECTORY_SIZE as u64;
    }
    true
}

impl WadArchive {
    /// The bytes of the archive.
    pub closed spec fn bytes(&self) -> Seq<u8> {
        self.raw_data@
    }

    /// The archive's directory entries.
    pub closed spec fn spec_files(&self) -> Seq<WadFileInfo> {
        self.files@
    }

    /// The archive's directory entries.
    pub fn entries(&self) -> (res: &Vec<WadFileInfo>)
        ensures
            res@ == self.spec_files(),
    {
        &self.files
    }

    /// Reads the directory of a well-formed archive, in order.
    fn read_file_infos(b: &[u8]) -> (res: Vec<WadFileInfo>)
        requires
            spec_is_wad(b@),
        ensures
            spec_files_match(res@, b@),
    {
        let len = b.len();
        let num_dir = le_u32(b, 4);
        let dir_offset = le_u32(b, 8);
        let mut files: Vec<WadFileInfo> = Vec::new();
        let mut i: u32 = 0;
        let mut pos: u64 = dir_offset as u64;
        while i < num_dir
            invariant
                len == b@.len(),
                spec_is_wad(b@),
                num_dir == spec_num_dir(b@),
                dir_offset == spec_u32_le(b@, 8),
                0 <= i <= num_dir,
                pos == spec_dir_pos(b@, i as int),
                files@.len() == i,
                forall|j: int|
                    0 <= j < i ==> spec_entry_matches(#[trigger] files@[j], b@, spec_dir_pos(b@, j)),
            decreases num_dir - i,
        {
            assert(spec_dir_ok(b@, spec_dir_pos(b@, i as int)));
            let info = match read_entry(b, pos as usize) {
                Some(info) => info,
                None => {
                    assert(false);
                    return files;
                },
            };
            files.push(info);
            i = i + 1;
            pos = pos + WAD_DIRECTORY_SIZE as u64;
        }
        files
    }

    /// Reads an archive from its bytes; `None` when they are not a
    /// well-formed archive (see [`spec_is_wad`]).
    pub fn try_from_bytes(wad_bytes: Vec<u8>) -> (res: Option<Self>)
        ensures
            res is Some <==> spec_is_wad(wad_bytes@),
            res matches Some(a) ==> a.bytes() == wad_bytes@ && spec_files_match(a.spec_files(), wad_bytes@),
    {
        if is_wad(wad_bytes.as_slice()) {
            let files = Self::read_file_infos(wad_bytes.as_slice());
            Some(WadArchive { files, raw_data: wad_bytes })
        } else {
            None
        }
    }

    /// Reads a well-formed archive from its bytes.
    pub fn from_bytes(wad_bytes: Vec<u8>) -> (res: Self)
        requires
            spec_is_wad(wad_bytes@),
        ensures
            res.bytes() == wad_bytes@,
            spec_files_match(res.spec_files(), wad_bytes@),
    {
        let files = Self::read_file_infos(wad_bytes.as_slice());
        WadArchive { files, raw_data: wad_bytes }
    }
}

/// A decoded texture: the image at full size and its three smaller mip levels.
pub struct MipmapedTextureData {
    pub image_width: u32,
    pub image_height: u32,
    pub image: RgbaImage,
    pub mipmap1: RgbaImage,
    pub mipmap2: RgbaImage,
    pub mipmap3: RgbaImage,
}

/// A decoded single image.
pub struct TextureData {
    pub image_width: u32,
    pub image_height: u32,
    pub image: RgbaImage,
}

/// Where a glyph lies in a font image.
#[derive(Copy, Clone, Debug, PartialEq, Eq, Structural)]
pub struct CharInfo {
    pub x: u32,
    pub y: u32,
    pub width: u32,
    pub height: u32,
}

impl CharInfo {
    /// The empty glyph at the origin.
    pub fn default() -> (res: CharInfo)
        ensures
            res == (CharInfo { x: 0, y: 0, width: 0, height: 0 }),
    {
        CharInfo { x: 0, y: 0, width: 0, height: 0 }
    }
}

/// A decoded font: the glyph atlas and where each of the 256 glyphs lies in it.
pub struct FontData {
    pub image_width: u32,
    pub image_height: u32,
    pub row_count: u32,
    pub row_height: u32,
    pub font_info: [CharInfo; 256],
    pub image: RgbaImage,
}

// ---- mipmapped textures (and decals) -------------------------------------

/// The width of a mipmapped texture whose data is `d`.
pub open spec fn spec_mip_w(d: Seq<u8>) -> int {
    spec_u32_le(d, 16) as int
}

/// The height of a mipmapped texture whose data is `d`.
pub open spec fn spec_mip_h(d: Seq<u8>) -> int {
    spec_u32_le(d, 20) as int
}

/// Where mip level `k` starts.
pub open spec fn spec_level_offset(d: Seq<u8>, k: int) -> int {
    spec_u32_le(d, 24 + 4 * k) as int
}

/// The number of pixels of mip level `k`.
pub open spec fn spec_level_len(d: Seq<u8>, k: int) -> int {
    (spec_mip_w(d) / spec_mip_level(k)) * (spec_mip_h(d) / spec_mip_level(k))
}

/// The pixels of mip level `k`.
pub open spec fn spec_level(d: Seq<u8>, k: int) -> Seq<u8> {
    d.subrange(spec_level_offset(d, k), spec_level_offset(d, k) + spec_level_len(d, k))
}

/// Where the colour count follows the smallest mip level.
pub open spec fn spec_colors_pos(d: Seq<u8>) -> int {
    spec_level_offset(d, 3) + spec_level_len(d, 3)
}

/// The number of palette colours.
pub open spec fn spec_num_colors(d: Seq<u8>) -> int {
    spec_u16_le(d, spec_colors_pos(d)) as int
}

/// The palette that follows the colour count.
pub open spec fn spec_mip_palette(d: Seq<u8>) -> Seq<u8> {
    d.subrange(spec_colors_pos(d) + 2, spec_colors_pos(d) + 2 + 3 * spec_num_colors(d))
}

/// The header, the four mip levels and the colour count lie within `d`,
/// and the sizes fit their integer types.
pub open spec fn spec_mip_levels_ok(d: Seq<u8>) -> bool {
    &&& d.len() >= 40
    &&& spec_mip_w(d) * spec_mip_h(d) <= u32::MAX
    &&& 4 * spec_mip_w(d) * spec_mip_h(d) <= usize::MAX
    &&& spec_level_offset(d, 0) + spec_level_len(d, 0) <= d.len()
    &&& spec_level_offset(d, 1) + spec_level_len(d, 1) <= d.len()
    &&& spec_level_offset(d, 2) + spec_level_len(d, 2) <= d.len()
    &&& spec_level_offset(d, 3) + spec_level_len(d, 3) <= d.len()
    &&& spec_colors_pos(d) + 2 <= d.len()
}

/// `d` is a mipmapped texture that [`WadArchive::decode_mipmaped_image_from_reader`]
/// decodes: its levels lie within it, its palette follows, and every pixel
/// indexes a colour of the palette.
pub open spec fn spec_mipmapped_ok(d: Seq<u8>) -> bool {
    &&& spec_mip_levels_ok(d)
    &&& 3 * spec_num_colors(d) <= u16::MAX
    &&& spec_colors_pos(d) + 2 + 3 * spec_num_colors(d) <= d.len()
    &&& spec_palette_covers(spec_level(d, 0), spec_mip_palette(d))
    &&& spec_palette_covers(spec_level(d, 1), spec_mip_palette(d))
    &&& spec_palette_covers(spec_level(d, 2), spec_mip_palette(d))
    &&& spec_palette_covers(spec_level(d, 3), spec_mip_palette(d))
}

/// `d` is a decal: mip levels as for a mipmapped texture and exactly 256 colours.
pub open spec fn spec_decal_ok(d: Seq<u8>) -> bool {
    spec_mip_levels_ok(d) && spec_num_colors(d) == 256
}

/// `img` is mip level `k` of `d` in colour.
pub open spec fn spec_colour_level(img: RgbaImage, d: Seq<u8>, k: int) -> bool {
    &&& image_bytes(img) == spec_rgba(spec_level(d, k), spec_mip_palette(d))
    &&& image_size(img) == ((spec_mip_w(d) / spec_mip_level(k)) as u32, (spec_mip_h(d) / spec_mip_level(k)) as u32)
}

/// `img` is mip level `k` of `d` in grey.
pub open spec fn spec_grey_level(img: RgbaImage, d: Seq<u8>, k: int) -> bool {
    &&& image_bytes(img) == spec_grey_rgba(spec_level(d, k))
    &&& image_size(img) == ((spec_mip_w(d) / spec_mip_level(k)) as u32, (spec_mip_h(d) / spec_mip_level(k)) as u32)
}

proof fn lemma_div_product_le(w: int, h: int, m: int)
    requires
        0 <= w,
        0 <= h,
        1 <= m,
    ensures
        0 <= (w / m) * (h / m) <= w * h,
        4 * ((w / m) * (h / m)) <= 4 * w * h,
        w / m <= w,
        h / m <= h,
{
    assert(w / m <= w) by (nonlinear_arith)
        requires
            0 <= w,
            1 <= m,
    ;
    assert(h / m <= h) by (nonlinear_arith)
        requires
            0 <= h,
            1 <= m,
    ;
    assert(0 <= w / m) by (nonlinear_arith)
        requires
            0 <= w,
            1 <= m,
    ;
    assert(0 <= h / m) by (nonlinear_arith)
        requires
            0 <= h,
            1 <= m,
    ;
    assert((w / m) * (h / m) <= w * h) by (nonlinear_arith)
        requires
            0 <= w / m <= w,
            0 <= h / m <= h,
    ;
    assert(0 <= (w / m) * (h / m)) by (nonlinear_arith)
        requires
            0 <= w / m,
            0 <= h / m,
    ;
    assert(4 * w * h == 4 * (w * h)) by (nonlinear_arith);
}

/// The layout of a mipmapped texture: it is `w` (the four bytes at 16) by
/// `h` (at 20) pixels; level `k` (0 to 3) holds `(w / 2^k) * (h / 2^k)`
/// palette indices stored from the offset in the four bytes at `24 + 4 k`;
/// the two-byte colour count follows level 3, and then three bytes per
/// colour.
pub proof fn lemma_mip_layout(d: Seq<u8>)
    requires
        spec_mip_levels_ok(d),
    ensures
        spec_level(d, 0).len() == (spec_bytes4(d, 16) / 1) * (spec_bytes4(d, 20) / 1),
        forall|j: int| 0 <= j < spec_level(d, 0).len() ==> #[trigger] spec_level(d, 0)[j] == d[spec_bytes4(d, 24) + j],
        spec_level(d, 1).len() == (spec_bytes4(d, 16) / 2) * (spec_bytes4(d, 20) / 2),
        forall|j: int| 0 <= j < spec_level(d, 1).len() ==> #[trigger] spec_level(d, 1)[j] == d[spec_bytes4(d, 28) + j],
        spec_level(d, 2).len() == (spec_bytes4(d, 16) / 4) * (spec_bytes4(d, 20) / 4),
        forall|j: int| 0 <= j < spec_level(d, 2).len() ==> #[trigger] spec_level(d, 2)[j] == d[spec_bytes4(d, 32) + j],
        spec_level(d, 3).len() == (spec_bytes4(d, 16) / 8) * (spec_bytes4(d, 20) / 8),
        forall|j: int| 0 <= j < spec_level(d, 3).len() ==> #[trigger] spec_level(d, 3)[j] == d[spec_bytes4(d, 36) + j],
        spec_colors_pos(d) == spec_bytes4(d, 36) + (spec_bytes4(d, 16) / 8) * (spec_bytes4(d, 20) / 8),
        spec_num_colors(d) == spec_bytes2(d, spec_colors_pos(d)),
{
    lemma_byte_values(d, 16);
    lemma_byte_values(d, 20);
    lemma_byte_values(d, 24);
    lemma_byte_values(d, 28);
    lemma_byte_values(d, 32);
    lemma_byte_values(d, 36);
    lemma_two_byte_values(d, spec_colors_pos(d));
    lemma_div_product_le(spec_mip_w(d), spec_mip_h(d), 1);
    lemma_div_product_le(spec_mip_w(d), spec_mip_h(d), 2);
    lemma_div_product_le(spec_mip_w(d), spec_mip_h(d), 4);
    lemma_div_product_le(spec_mip_w(d), spec_mip_h(d), 8);
}

/// Copies mip level `k` of `d`.
fn read_level(d: &[u8], w: u32, h: u32, k: usize) -> (res: Vec<u8>)
    requires
        spec_mip_levels_ok(d@),
        w == spec_mip_w(d@),
        h == spec_mip_h(d@),
        k < 4,
    ensures
        res@ == spec_level(d@, k as int),
        res@.len() == spec_level_len(d@, k as int),
{
    let _dlen = d.len();
    let m: u32 = if k == 0 {
        1
    } else if k == 1 {
        2
    } else if k == 2 {
        4
    } else {
        8
    };
    proof {
        lemma_div_product_le(w as int, h as int, m as int);
    }
    let len = ((w / m) as usize) * ((h / m) as usize);
    let offset = bincode_u32_at(d, 24 + 4 * k);
    let offset = match offset {
        Some(o) => o as usize,
        None => 0,
    };
    slice_to_vec(&d[offset..offset + len])
}

/// The levels of a mipmapped texture as 4 copies, largest first.
fn read_mipmapped_image_data(d: &[u8]) -> (res: (Vec<u8>, Vec<u8>, Vec<u8>, Vec<u8>))
    requires
        spec_mip_levels_ok(d@),
    ensures
        res.0@ == spec_level(d@, 0),
        res.1@ == spec_level(d@, 1),
        res.2@ == spec_level(d@, 2),
        res.3@ == spec_level(d@, 3),
{
    let w = match bincode_u32_at(d, 16) {
        Some(v) => v,
        None => 0,
    };
    let h = match bincode_u32_at(d, 20) {
        Some(v) => v,
        None => 0,
    };
    let image_data = read_level(d, w, h, 0);
    let mipmap1_data = read_level(d, w, h, 1);
    let mipmap2_data = read_level(d, w, h, 2);
    let mipmap3_data = read_level(d, w, h, 3);
    (image_data, mipmap1_data, mipmap2_data, mipmap3_data)
}

/// The position of the colour count.
fn colors_pos(d: &[u8]) -> (res: usize)
    requires
        spec_mip_levels_ok(d@),
    ensures
        res == spec_colors_pos(d@),
{
    let _dlen = d.len();
    let w = match bincode_u32_at(d, 16) {
        Some(v) => v,
        None => 0,
    };
    let h = match bincode_u32_at(d, 20) {
        Some(v) => v,
        None => 0,
    };
    proof {
        lemma_div_product_le(w as int, h as int, 8);
    }
    let len = ((w / 8) as usize) * ((h / 8) as usize);
    let offset = match bincode_u32_at(d, 36) {
        Some(o) => o as usize,
        None => 0,
    };
    offset + len
}

impl WadArchive {
    /// Decodes the data of a mipmapped texture: each level becomes an RGBA
    /// image through the palette that follows the smallest level.
    pub fn decode_mipmaped_image_from_reader(d: &[u8]) -> (res: MipmapedTextureData)
        requires
            spec_mipmapped_ok(d@),
        ensures
            res.image_width == spec_mip_w(d@),
            res.image_height == spec_mip_h(d@),
            spec_colour_level(res.image, d@, 0),
            spec_colour_level(res.mipmap1, d@, 1),
            spec_colour_level(res.mipmap2, d@, 2),
            spec_colour_level(res.mipmap3, d@, 3),
    {
        let _dlen = d.len();
        let w = match bincode_u32_at(d, 16) {
            Some(v) => v,
            None => 0,
        };
        let h = match bincode_u32_at(d, 20) {
            Some(v) => v,
            None => 0,
        };
        let (image_data, mipmap1_data, mipmap2_data, mipmap3_data) = read_mipmapped_image_data(d);
        let p = colors_pos(d);
        let num_colors = byteorder_u16_at(d, p);
        let palette_len = (3 * num_colors) as usize;
        let palette_data = slice_to_vec(&d[p + 2..p + 2 + palette_len]);
        proof {
            lemma_div_product_le(w as int, h as int, 1);
            lemma_div_product_le(w as int, h as int, 2);
            lemma_div_product_le(w as int, h as int, 4);
            lemma_div_product_le(w as int, h as int, 8);
        }
        let image = create_image(image_data.as_slice(), palette_data.as_slice(), w, h);
        let mipmap1 = create_image(mipmap1_data.as_slice(), palette_data.as_slice(), w / 2, h / 2);
        let mipmap2 = create_image(mipmap2_data.as_slice(), palette_data.as_slice(), w / 4, h / 4);
        let mipmap3 = create_image(mipmap3_data.as_slice(), palette_data.as_slice(), w / 8, h / 8);
        MipmapedTextureData { image_width: w, image_height: h, image, mipmap1, mipmap2, mipmap3 }
    }
}

/// The entry's data lies within the archive `b`.
pub open spec fn spec_entry_in_bounds(b: Seq<u8>, info: WadFileInfo) -> bool {
    info.spec_file_position() + info.spec_disk_size() <= b.len()
}

/// The entry's data in the archive `b`.
pub open spec fn spec_file_data(b: Seq<u8>, info: WadFileInfo) -> Seq<u8> {
    b.subrange(info.spec_file_position() as int, info.spec_file_position() + info.spec_disk_size())
}

// ---- plain images ------------------------------------------------------

pub open spec fn spec_img_w(d: Seq<u8>) -> int {
    spec_u32_le(d, 0) as int
}

pub open spec fn spec_img_h(d: Seq<u8>) -> int {
    spec_u32_le(d, 4) as int
}

/// The pixels of a plain image, after its 8-byte header.
pub open spec fn spec_img_pixels(d: Seq<u8>) -> Seq<u8> {
    d.subrange(8, 8 + spec_img_w(d) * spec_img_h(d))
}

/// Where the colour count of a plain image lies.
pub open spec fn spec_img_colors_pos(d: Seq<u8>) -> int {
    8 + spec_img_w(d) * spec_img_h(d)
}

pub open spec fn spec_img_num_colors(d: Seq<u8>) -> int {
    spec_u16_le(d, spec_img_colors_pos(d)) as int
}

pub open spec fn spec_img_palette(d: Seq<u8>) -> Seq<u8> {
    d.subrange(spec_img_colors_pos(d) + 2, spec_img_colors_pos(d) + 2 + 3 * spec_img_num_colors(d))
}

/// `d` is a plain image that [`WadArchive::decode_image`] decodes.
pub open spec fn spec_image_ok(d: Seq<u8>) -> bool {
    &&& d.len() >= 8
    &&& spec_img_w(d) * spec_img_h(d) <= u32::MAX
    &&& 4 * spec_img_w(d) * spec_img_h(d) <= usize::MAX
    &&& spec_img_colors_pos(d) + 2 <= d.len()
    &&& 3 * spec_img_num_colors(d) <= u16::MAX
    &&& spec_img_colors_pos(d) + 2 + 3 * spec_img_num_colors(d) <= d.len()
    &&& spec_palette_covers(spec_img_pixels(d), spec_img_palette(d))
}

// ---- fonts ---------------------------------------------------------------

/// The width that fonts are decoded with.
pub const FONT_WIDTH: u32 = 256;

/// The size of a font header: four sizes and the 1024-byte glyph table.
pub const FONT_HEADER_SIZE: usize = 1040;

pub open spec fn spec_font_h(d: Seq<u8>) -> int {
    spec_u32_le(d, 4) as int
}

pub open spec fn spec_font_row_count(d: Seq<u8>) -> u32 {
    spec_u32_le(d, 8)
}

pub open spec fn spec_font_row_height(d: Seq<u8>) -> int {
    spec_u32_le(d, 12) as int
}

/// The glyph atlas: 256 palette indices per row, after the header.
pub open spec fn spec_font_pixels(d: Seq<u8>) -> Seq<u8> {
    d.subrange(FONT_HEADER_SIZE as int, FONT_HEADER_SIZE + 256 * spec_font_h(d))
}

pub open spec fn spec_font_colors_pos(d: Seq<u8>) -> int {
    FONT_HEADER_SIZE + 256 * spec_font_h(d)
}

pub open spec fn spec_font_num_colors(d: Seq<u8>) -> int {
    spec_u16_le(d, spec_font_colors_pos(d)) as int
}

/// The font's palette: as many of its `3 * colours` bytes as the data
/// holds, then zeros.
pub open spec fn spec_font_palette(d: Seq<u8>) -> Seq<u8> {
    let q = spec_font_colors_pos(d) + 2;
    let want = 3 * spec_font_num_colors(d);
    let avail = if d.len() - q < want { d.len() - q } else { want };
    d.subrange(q, q + avail) + Seq::new((want - avail) as nat, |i: int| 0u8)
}

/// Glyph `i`: its offset in the atlas, split into the row of height
/// `row_height` and the column within it, and its width.
pub open spec fn spec_char_info(d: Seq<u8>, i: int) -> CharInfo {
    let offset = spec_u16_le(d, 16 + 4 * i) as int;
    let width = spec_u16_le(d, 18 + 4 * i);
    let rh = spec_font_row_height(d);
    let row_area = rh * 256;
    let row = offset / row_area;
    CharInfo { x: (offset - row_area * row) as u32, y: (rh * row) as u32, width: width as u32, height: rh as u32 }
}

/// `d` is a font that [`WadArchive::decode_font`] decodes.
pub open spec fn spec_font_ok(d: Seq<u8>) -> bool {
    &&& d.len() >= FONT_HEADER_SIZE
    &&& spec_font_row_height(d) != 0
    &&& spec_font_row_height(d) * 256 <= u32::MAX
    &&& 256 * spec_font_h(d) <= u32::MAX
    &&& 4 * 256 * spec_font_h(d) <= usize::MAX
    &&& spec_font_colors_pos(d) + 2 <= d.len()
    &&& 3 * spec_font_num_colors(d) <= u16::MAX
    &&& spec_palette_covers(spec_font_pixels(d), spec_font_palette(d))
}

proof fn lemma_row_split(offset: int, rh: int)
    requires
        0 <= offset,
        1 <= rh,
    ensures
        0 <= offset / (rh * 256),
        (rh * 256) * (offset / (rh * 256)) <= offset,
        offset - (rh * 256) * (offset / (rh * 256)) < rh * 256,
        rh * (offset / (rh * 256)) <= offset,
{
    let a = rh * 256;
    assert(a >= 256) by (nonlinear_arith)
        requires
            rh >= 1,
            a == rh * 256,
    ;
    vstd::arithmetic::div_mod::lemma_fundamental_div_mod(offset, a);
    vstd::arithmetic::div_mod::lemma_div_pos_is_pos(offset, a);
    assert(rh * (offset / a) <= a * (offset / a)) by (nonlinear_arith)
        requires
            a == rh * 256,
            0 <= offset / a,
            rh >= 1,
    ;
}

/// Each glyph of a font lies where its stored offset (the two bytes at
/// `16 + 4 * i`) points in an atlas 256 pixels wide: the offset is
/// `x + 256 * y`, with `y` the first pixel row of the glyph's band (a
/// multiple of the row height, the four bytes at 12) and `x` within that
/// band; its width is the two bytes after the offset and its height the row
/// height.
pub proof fn lemma_glyph_position(d: Seq<u8>, i: int)
    requires
        spec_font_ok(d),
        0 <= i < 256,
    ensures
        ({
            let c = spec_char_info(d, i);
            let rh = spec_bytes4(d, 12);
            &&& c.x as int + 256 * (c.y as int) == spec_bytes2(d, 16 + 4 * i)
            &&& (c.y as int) % rh == 0
            &&& 0 <= c.x < 256 * rh
            &&& c.width as int == spec_bytes2(d, 18 + 4 * i)
            &&& c.height as int == rh
        }),
{
    lemma_byte_values(d, 12);
    lemma_byte_values(d, 16 + 4 * i);
    let offset = spec_u16_le(d, 16 + 4 * i) as int;
    let rh = spec_font_row_height(d);
    let row_area = rh * 256;
    let row = offset / row_area;
    lemma_row_split(offset, rh);
    assert(offset - row_area * row + 256 * (rh * row) == offset) by (nonlinear_arith)
        requires
            row_area == rh * 256,
    ;
    vstd::arithmetic::div_mod::lemma_mod_multiples_basic(row, rh);
    assert(rh * row == row * rh) by (nonlinear_arith);
}

impl WadArchive {
    /// The data of an entry.
    fn get_file_data(&self, file_info: &WadFileInfo) -> (res: &[u8])
        requires
            spec_entry_in_bounds(self.bytes(), *file_info),
        ensures
            res@ == spec_file_data(self.bytes(), *file_info),
    {
        let data_len: usize = self.raw_data.len();
        assert(file_info.info.file_position + file_info.info.disk_size <= data_len);
        let start_index = file_info.info.file_position as usize;
        let end_index = start_index + file_info.info.disk_size as usize;
        &self.raw_data.as_slice()[start_index..end_index]
    }

    /// Decodes a decal: each mip level becomes an opaque grey image whose
    /// brightness is the pixel's value.
    pub fn decode_decal(&self, file_info: &WadFileInfo) -> (res: MipmapedTextureData)
        requires
            file_info.spec_kind() == TextureType::Decal,
            spec_entry_in_bounds(self.bytes(), *file_info),
            spec_decal_ok(spec_file_data(self.bytes(), *file_info)),
        ensures
            ({
                let d = spec_file_data(self.bytes(), *file_info);
                &&& res.image_width == spec_mip_w(d)
                &&& res.image_height == spec_mip_h(d)
                &&& spec_grey_level(res.image, d, 0)
                &&& spec_grey_level(res.mipmap1, d, 1)
                &&& spec_grey_level(res.mipmap2, d, 2)
                &&& spec_grey_level(res.mipmap3, d, 3)
            }),
    {
        let d = self.get_file_data(file_info);
        let w = match bincode_u32_at(d, 16) {
            Some(v) => v,
            None => 0,
        };
        let h = match bincode_u32_at(d, 20) {
            Some(v) => v,
            None => 0,
        };
        let (image_data, mipmap1_data, mipmap2_data, mipmap3_data) = read_mipmapped_image_data(d);
        proof {
            lemma_div_product_le(w as int, h as int, 1);
            lemma_div_product_le(w as int, h as int, 2);
            lemma_div_product_le(w as int, h as int, 4);
            lemma_div_product_le(w as int, h as int, 8);
        }
        let image = create_image_greyscale(image_data.as_slice(), w, h);
        let mipmap1 = create_image_greyscale(mipmap1_data.as_slice(), w / 2, h / 2);
        let mipmap2 = create_image_greyscale(mipmap2_data.as_slice(), w / 4, h / 4);
        let mipmap3 = create_image_greyscale(mipmap3_data.as_slice(), w / 8, h / 8);
        MipmapedTextureData { image_width: w, image_height: h, image, mipmap1, mipmap2, mipmap3 }
    }

    /// Decodes a mipmapped texture, or a decal laid out like one.
    pub fn decode_mipmaped_image(&self, file_info: &WadFileInfo) -> (res: MipmapedTextureData)
        requires
            file_info.spec_kind() == TextureType::MipmappedImage || file_info.spec_kind()
                == TextureType::Decal,
            spec_entry_in_bounds(self.bytes(), *file_info),
            spec_mipmapped_ok(spec_file_data(self.bytes(), *file_info)),
        ensures
            ({
                let d = spec_file_data(self.bytes(), *file_info);
                &&& res.image_width == spec_mip_w(d)
                &&& res.image_height == spec_mip_h(d)
                &&& spec_colour_level(res.image, d, 0)
                &&& spec_colour_level(res.mipmap1, d, 1)
                &&& spec_colour_level(res.mipmap2, d, 2)
                &&& spec_colour_level(res.mipmap3, d, 3)
            }),
    {
        let d = self.get_file_data(file_info);
        Self::decode_mipmaped_image_from_reader(d)
    }

    /// Decodes a plain image through the palette that follows its pixels.
    pub fn decode_image(&self, file_info: &WadFileInfo) -> (res: TextureData)
        requires
            file_info.spec_kind() == TextureType::Image,
            spec_entry_in_bounds(self.bytes(), *file_info),
            spec_image_ok(spec_file_data(self.bytes(), *file_info)),
        ensures
            ({
                let d = spec_file_data(self.bytes(), *file_info);
                &&& res.image_width == spec_img_w(d)
                &&& res.image_height == spec_img_h(d)
                &&& image_bytes(res.image) == spec_rgba(spec_img_pixels(d), spec_img_palette(d))
                &&& image_size(res.image) == (spec_img_w(d) as u32, spec_img_h(d) as u32)
            }),
    {
        let d = self.get_file_data(file_info);
        let _dlen = d.len();
        let w = match bincode_u32_at(d, 0) {
            Some(v) => v,
            None => 0,
        };
        let h = match bincode_u32_at(d, 4) {
            Some(v) => v,
            None => 0,
        };
        let len = (w as usize) * (h as usize);
        let image_data = slice_to_vec(&d[8..8 + len]);
        let num_colors = byteorder_u16_at(d, 8 + len);
        let palette_len = (3 * num_colors) as usize;
        let palette_data = slice_to_vec(&d[10 + len..10 + len + palette_len]);
        proof {
            assert(4 * w * h == 4 * (w * h)) by (nonlinear_arith);
        }
        let image = create_image(image_data.as_slice(), palette_data.as_slice(), w, h);
        TextureData { image_width: w, image_height: h, image }
    }

    /// Decodes a font: the glyph table gives each glyph's position (rows of
    /// `row_height` pixels, 256 pixels wide) and width, and the atlas becomes
    /// an image in which palette index 255 is transparent.
    pub fn decode_font(&self, file_info: &WadFileInfo) -> (res: FontData)
        requires
            file_info.spec_kind() == TextureType::Font,
            spec_entry_in_bounds(self.bytes(), *file_info),
            spec_font_ok(spec_file_data(self.bytes(), *file_info)),
        ensures
            ({
                let d = spec_file_data(self.bytes(), *file_info);
                &&& res.image_width == FONT_WIDTH
                &&& res.image_height == spec_font_h(d)
                &&& res.row_count == spec_font_row_count(d)
                &&& res.row_height == spec_font_row_height(d)
                &&& forall|i: int| 0 <= i < 256 ==> #[trigger] res.font_info[i] == spec_char_info(d, i)
                &&& image_bytes(res.image) == spec_keyed_rgba(spec_font_pixels(d), spec_font_palette(d), 255)
                &&& image_size(res.image) == (FONT_WIDTH, spec_font_h(d) as u32)
            }),
    {
        let d = self.get_file_data(file_info);
        let dlen = d.len();
        let h = match bincode_u32_at(d, 4) {
            Some(v) => v,
            None => 0,
        };
        let row_count = match bincode_u32_at(d, 8) {
            Some(v) => v,
            None => 0,
        };
        let row_height = match bincode_u32_at(d, 12) {
            Some(v) => v,
            None => 0,
        };
        let width = FONT_WIDTH;
        let mut font_info = [CharInfo::default(); 256];
        let mut i: usize = 0;
        while i < 256
            invariant
                dlen == d@.len(),
                spec_font_ok(d@),
                row_height == spec_font_row_height(d@),
                0 <= i <= 256,
                forall|j: int| 0 <= j < i ==> #[trigger] font_info[j] == spec_char_info(d@, j),
            decreases 256 - i,
        {
            let offset = byteorder_u16_at(d, 16 + 4 * i) as u32;
            let char_width = byteorder_u16_at(d, 18 + 4 * i) as u32;
            proof {
                lemma_row_split(offset as int, row_height as int);
            }
            let row_area = row_height * 256;
            let row = offset / row_area;
            let offset = offset - (row_area * row);
            let x = offset;
            let y = row_height * row;
            let height = row_height;
            font_info[i] = CharInfo { x, y, width: char_width, height };
            i += 1;
        }
        let len = (width as usize) * (h as usize);
        let image_data = slice_to_vec(&d[FONT_HEADER_SIZE..FONT_HEADER_SIZE + len]);
        let num_colors = byteorder_u16_at(d, FONT_HEADER_SIZE + len);
        let palette_len = (num_colors * 3) as usize;
        let q = FONT_HEADER_SIZE + len + 2;
        let avail = if dlen - q < palette_len {
            dlen - q
        } else {
            palette_len
        };
        let mut palette_data = slice_to_vec(&d[q..q + avail]);
        let ghost read_part = palette_data@;
        let mut k: usize = avail;
        while k < palette_len
            invariant
                avail <= k <= palette_len,
                palette_data@.len() == k,
                palette_data@.subrange(0, avail as int) == read_part,
                forall|j: int| avail <= j < k ==> palette_data@[j] == 0u8,
            decreases palette_len - k,
        {
            palette_data.push(0);
            k += 1;
        }
        proof {
            assert(palette_data@ =~= spec_font_palette(d@));
            assert(4 * width * h == 4 * 256 * h) by (nonlinear_arith)
                requires
                    width == 256,
            ;
            assert(4 * width * h == 4 * (width * h)) by (nonlinear_arith);
        }
        let image = create_image_with_alpha_key(image_data.as_slice(), palette_data.as_slice(), width, h, 255);
        FontData { image_width: width, image_height: h, row_count, row_height, font_info, image }
    }
}

// ---- checks of what the decoders need ------------------------------------------

/// Whether every index of `d[start..start + n]` names one of the colours of
/// a palette of `palette_len` bytes.
fn palette_covers(d: &[u8], start: usize, n: usize, palette_len: usize) -> (res: bool)
    requires
        start + n <= d@.len(),
    ensures
        res == (forall|i: int|
            0 <= i < n ==> 3 * (#[trigger] d@.subrange(start as int, start + n)[i]) as int + 3
                <= palette_len),
{
    let ghost s = d@.subrange(start as int, start + n);
    let len = d.len();
    let mut i: usize = 0;
    while i < n
        invariant
            len == d@.len(),
            start + n <= d@.len(),
            s == d@.subrange(start as int, start + n),
            0 <= i <= n,
            forall|j: int| 0 <= j < i ==> 3 * (#[trigger] s[j]) as int + 3 <= palette_len,
        decreases n - i,
    {
        if 3 * (d[start + i] as usize) + 3 > palette_len {
            assert(s[i as int] == d@[start + i]);
            return false;
        }
        i += 1;
    }
    true
}

/// The size of a mip level, and where it ends, when both fit; checks one of
/// the conditions of [`spec_mip_levels_ok`].
fn level_fits(d: &[u8], k: usize, w: u64, h: u64) -> (res: Option<(usize, usize)>)
    requires
        d@.len() >= 40,
        k < 4,
        w == spec_mip_w(d@),
        h == spec_mip_h(d@),
        w * h <= u32::MAX,
    ensures
        res is Some <==> spec_level_offset(d@, k as int) + spec_level_len(d@, k as int) <= d@.len(),
        res matches Some((off, n)) ==> off == spec_level_offset(d@, k as int) && n == spec_level_len(
            d@,
            k as int,
        ),
{
    let m: u64 = if k == 0 {
        1
    } else if k == 1 {
        2
    } else if k == 2 {
        4
    } else {
        8
    };
    proof {
        lemma_div_product_le(w as int, h as int, m as int);
    }
    let n: u64 = (w / m) * (h / m);
    let off = le_u32(d, 24 + 4 * k) as u64;
    if off + n > d.len() as u64 {
        return None;
    }
    Some((off as usize, n as usize))
}

/// Whether `d` satisfies [`spec_mip_levels_ok`].
pub fn mip_levels_ok(d: &[u8]) -> (res: bool)
    ensures
        res == spec_mip_levels_ok(d@),
{
    let len = d.len();
    if len < 40 {
        return false;
    }
    let w = le_u32(d, 16) as u64;
    let h = le_u32(d, 20) as u64;
    assert(w * h <= 0xffff_ffff * 0xffff_ffff) by (nonlinear_arith)
        requires
            w <= 0xffff_ffff,
            h <= 0xffff_ffff,
    ;
    if w * h > 0xffff_ffff {
        return false;
    }
    if 4 * (w * h) > usize::MAX as u64 {
        assert(4 * w * h == 4 * (w * h)) by (nonlinear_arith);
        return false;
    }
    assert(4 * w * h == 4 * (w * h)) by (nonlinear_arith);
    let l0 = level_fits(d, 0, w, h);
    let l1 = level_fits(d, 1, w, h);
    let l2 = level_fits(d, 2, w, h);
    let l3 = level_fits(d, 3, w, h);
    match (l0, l1, l2, l3) {
        (Some(_), Some(_), Some(_), Some((off3, n3))) => len - (off3 + n3) >= 2,
        _ => false,
    }
}

/// Whether `d` satisfies [`spec_mipmapped_ok`].
pub fn mipmapped_ok(d: &[u8]) -> (res: bool)
    ensures
        res == spec_mipmapped_ok(d@),
{
    if !mip_levels_ok(d) {
        return false;
    }
    let len = d.len();
    let w = le_u32(d, 16) as u64;
    let h = le_u32(d, 20) as u64;
    let (off0, n0) = match level_fits(d, 0, w, h) { Some(v) => v, None => return false };
    let (off1, n1) = match level_fits(d, 1, w, h) { Some(v) => v, None => return false };
    let (off2, n2) = match level_fits(d, 2, w, h) { Some(v) => v, None => return false };
    let (off3, n3) = match level_fits(d, 3, w, h) { Some(v) => v, None => return false };
    let colors_pos = off3 + n3;
    let num_colors = le_u16(d, colors_pos) as usize;
    if 3 * num_colors > 0xffff {
        return false;
    }
    if len - (colors_pos + 2) < 3 * num_colors {
        return false;
    }
    let palette_len = 3 * num_colors;
    proof {
        assert(spec_mip_palette(d@).len() == palette_len);
    }
    palette_covers(d, off0, n0, palette_len) && palette_covers(d, off1, n1, palette_len) && palette_covers(
        d,
        off2,
        n2,
        palette_len,
    ) && palette_covers(d, off3, n3, palette_len)
}

/// Whether `d` satisfies [`spec_decal_ok`].
pub fn decal_ok(d: &[u8]) -> (res: bool)
    ensures
        res == spec_decal_ok(d@),
{
    if !mip_levels_ok(d) {
        return false;
    }
    let _len = d.len();
    let w = le_u32(d, 16) as u64;
    let h = le_u32(d, 20) as u64;
    let (off3, n3) = match level_fits(d, 3, w, h) { Some(v) => v, None => return false };
    le_u16(d, off3 + n3) == 256
}

/// Whether `d` satisfies [`spec_image_ok`].
pub fn image_ok(d: &[u8]) -> (res: bool)
    ensures
        res == spec_image_ok(d@),
{
    let len = d.len();
    if len < 8 {
        return false;
    }
    let w = le_u32(d, 0) as u64;
    let h = le_u32(d, 4) as u64;
    assert(w * h <= 0xffff_ffff * 0xffff_ffff) by (nonlinear_arith)
        requires
            w <= 0xffff_ffff,
            h <= 0xffff_ffff,
    ;
    if w * h > 0xffff_ffff {
        return false;
    }
    assert(4 * w * h == 4 * (w * h)) by (nonlinear_arith);
    if 4 * (w * h) > usize::MAX as u64 {
        return false;
    }
    let n = (w * h) as usize;
    if 8 + (w * h) + 2 > len as u64 {
        return false;
    }
    let colors_pos = 8 + n;
    let num_colors = le_u16(d, colors_pos) as usize;
    if 3 * num_colors > 0xffff {
        return false;
    }
    if colors_pos + 2 + 3 * num_colors > len {
        return false;
    }
    proof {
        assert(spec_img_palette(d@).len() == 3 * num_colors);
    }
    palette_covers(d, 8, n, 3 * num_colors)
}

/// Whether `d` satisfies [`spec_font_ok`].
pub fn font_ok(d: &[u8]) -> (res: bool)
    ensures
        res == spec_font_ok(d@),
{
    let len = d.len();
    if len < FONT_HEADER_SIZE {
        return false;
    }
    let h = le_u32(d, 4) as u64;
    let rh = le_u32(d, 12) as u64;
    if rh == 0 || rh * 256 > 0xffff_ffff || 256 * h > 0xffff_ffff {
        return false;
    }
    let glyph_bytes: u64 = 256 * h;
    assert(h == spec_font_h(d@));
    assert(4 * 256 * spec_font_h(d@) == 4 * glyph_bytes) by (nonlinear_arith)
        requires
            h == spec_font_h(d@),
            glyph_bytes == 256 * h,
    ;
    if 4 * glyph_bytes > usize::MAX as u64 {
        return false;
    }
    let n = (256 * h) as usize;
    if FONT_HEADER_SIZE as u64 + 256 * h + 2 > len as u64 {
        return false;
    }
    let colors_pos = FONT_HEADER_SIZE + n;
    let num_colors = le_u16(d, colors_pos) as usize;
    if 3 * num_colors > 0xffff {
        return false;
    }
    proof {
        assert(spec_font_palette(d@).len() == 3 * num_colors);
    }
    palette_covers(d, FONT_HEADER_SIZE, n, 3 * num_colors)
}

impl WadArchive {
    /// Whether an entry's data lies within the archive.
    pub fn entry_in_bounds(&self, file_info: &WadFileInfo) -> (res: bool)
        ensures
            res == spec_entry_in_bounds(self.bytes(), *file_info),
    {
        file_info.info.file_position as u64 + file_info.info.disk_size as u64 <= self.raw_data.len() as u64
    }

    /// The data of an entry, when it lies within the archive.
    pub fn file_data(&self, file_info: &WadFileInfo) -> (res: Option<&[u8]>)
        ensures
            res is Some <==> spec_entry_in_bounds(self.bytes(), *file_info),
            res matches Some(d) ==> d@ == spec_file_data(self.bytes(), *file_info),
    {
        if self.entry_in_bounds(file_info) {
            Some(self.get_file_data(file_info))
        } else {
            None
        }
    }
}

} // verus!
