//! The textures of a map: decoded from the map itself when it holds their
//! pixels, else found by name in the map's texture archives.
use vstd::prelude::*;
use vstd::utf8::*;
use vstd::string::StringSliceAdditionalSpecFns;
use crate::bsp::{BspReader, spec_lump, spec_lump_in_bounds, spec_texture_offsets, spec_texture_table_fits, LUMP_TEXTURES};
use crate::bsp_records::BspMipTextureHeader;
use crate::text::{spec_nul_end, spec_to_uppercase, to_uppercase, str_eq};
use crate::entities::{BspEntity, spec_entity_get};
use vstd::string::StrSliceExecFns;
use crate::wad3::{
    MipmapedTextureData, TextureType, WadArchive, spec_colour_level, spec_entry_in_bounds, spec_file_data,
    spec_mip_h, spec_mip_w, spec_mipmapped_ok, mipmapped_ok,
};
use super::bsp::{WadCollection, spec_find_from};

verus! {

broadcast use group_utf8_lib;

/// A decoded texture of a map, with its name.
pub struct TextureInfo {
    pub name: String,
    pub image_data: MipmapedTextureData,
}

/// Where the data of texture `i` ends: at the next texture's offset, or at
/// the end of the lump for the last one.
pub open spec fn spec_entry_end(lump: Seq<u8>, offsets: Seq<i32>, i: int) -> int {
    if i + 1 < offsets.len() {
        offsets[i + 1] as int
    } else {
        lump.len() as int
    }
}

/// The data of texture `i` lies within the lump and holds a header.
pub open spec fn spec_entry_fits(lump: Seq<u8>, offsets: Seq<i32>, i: int) -> bool {
    0 <= offsets[i] && offsets[i] + 40 <= spec_entry_end(lump, offsets, i) <= lump.len()
}

/// The data of texture `i`, starting with its header.
pub open spec fn spec_entry(lump: Seq<u8>, offsets: Seq<i32>, i: int) -> Seq<u8> {
    lump.subrange(offsets[i] as int, spec_entry_end(lump, offsets, i))
}

/// The bytes of a texture's name: its 16 name bytes up to the first zero.
pub open spec fn spec_entry_name(d: Seq<u8>) -> Seq<u8> {
    let name = d.subrange(0, 16);
    name.subrange(0, spec_nul_end(name))
}

/// Where the pixels of the texture with data `d` come from: `d` itself when
/// its first level's offset is not zero, else the data of the first archive
/// entry named like the texture in upper case, when that entry is a
/// mipmapped texture (or a decal, laid out alike) within its archive.
pub open spec fn spec_pixel_source(wads: Seq<WadArchive>, d: Seq<u8>) -> Option<Seq<u8>> {
    if BspMipTextureHeader::spec_decode_at(d, 0).offsets[0] != 0 {
        Some(d)
    } else {
        match spec_find_from(wads, spec_to_uppercase(decode_utf8(spec_entry_name(d))), 0) {
            Some((a, f)) => {
                let file = wads[a].spec_files()[f];
                if (file.spec_kind() == TextureType::MipmappedImage || file.spec_kind() == TextureType::Decal)
                    && spec_entry_in_bounds(wads[a].bytes(), file) {
                    Some(spec_file_data(wads[a].bytes(), file))
                } else {
                    None
                }
            },
            None => None,
        }
    }
}

/// `t` is the mipmapped texture `d` decoded.
pub open spec fn spec_decoded(t: MipmapedTextureData, d: Seq<u8>) -> bool {
    &&& t.image_width == spec_mip_w(d)
    &&& t.image_height == spec_mip_h(d)
    &&& spec_colour_level(t.image, d, 0)
    &&& spec_colour_level(t.mipmap1, d, 1)
    &&& spec_colour_level(t.mipmap2, d, 2)
    &&& spec_colour_level(t.mipmap3, d, 3)
}

/// Texture `i` can be read: its data fits, its name is UTF-8, and its pixels
/// are found and decodable.
pub open spec fn spec_texture_ok(wads: Seq<WadArchive>, lump: Seq<u8>, offsets: Seq<i32>, i: int) -> bool {
    &&& spec_entry_fits(lump, offsets, i)
    &&& valid_utf8(spec_entry_name(spec_entry(lump, offsets, i)))
    &&& spec_pixel_source(wads, spec_entry(lump, offsets, i)) matches Some(p) && spec_mipmapped_ok(p)
}

/// `t` is texture `i`: its name and its decoded pixels.
pub open spec fn spec_texture_matches(
    t: TextureInfo,
    wads: Seq<WadArchive>,
    lump: Seq<u8>,
    offsets: Seq<i32>,
    i: int,
) -> bool {
    let d = spec_entry(lump, offsets, i);
    &&& encode_utf8(t.name@) == spec_entry_name(d)
    &&& spec_pixel_source(wads, d) matches Some(p) && spec_decoded(t.image_data, p)
}

/// The texture lump of `r` and its offset table are within the file.
pub open spec fn spec_textures_fit(b: Seq<u8>) -> bool {
    spec_lump_in_bounds(b, LUMP_TEXTURES as int) && spec_texture_table_fits(spec_lump(b, LUMP_TEXTURES as int))
}

/// Reads and decodes every texture of the map, in the order of the texture
/// lump; `None` when the lump does not fit or a texture cannot be read (see
/// [`spec_texture_ok`]).
pub fn read_textures(reader: &BspReader, wad_resources: &WadCollection) -> (res: Option<Vec<TextureInfo>>)
    ensures
        ({
            let b = reader.bytes();
            let lump = spec_lump(b, LUMP_TEXTURES as int);
            let offsets = spec_texture_offsets(lump);
            let wads = wad_resources.spec_wads();
            &&& res is Some <==> spec_textures_fit(b) && forall|i: int|
                0 <= i < offsets.len() ==> #[trigger] spec_texture_ok(wads, lump, offsets, i)
            &&& res matches Some(v) ==> v@.len() == offsets.len() && forall|i: int|
                0 <= i < offsets.len() ==> #[trigger] spec_texture_matches(v@[i], wads, lump, offsets, i)
        }),
{
    if !reader.textures_in_bounds() {
        return None;
    }
    let texture_reader = reader.read_textures();
    let ghost lump = spec_lump(reader.bytes(), LUMP_TEXTURES as int);
    let ghost offsets = spec_texture_offsets(lump);
    let ghost wads = wad_resources.spec_wads();
    let n = texture_reader.len();
    let mut textures: Vec<TextureInfo> = Vec::with_capacity(n);
    let mut i: usize = 0;
    while i < n
        invariant
            n == offsets.len(),
            lump == spec_lump(reader.bytes(), LUMP_TEXTURES as int),
            offsets == spec_texture_offsets(lump),
            texture_reader.lump() == lump,
            texture_reader.offsets() == offsets,
            wads == wad_resources.spec_wads(),
            0 <= i <= n,
            textures@.len() == i,
            forall|k: int| 0 <= k < i ==> #[trigger] spec_texture_ok(wads, lump, offsets, k),
            forall|k: int| 0 <= k < i ==> #[trigger] spec_texture_matches(textures@[k], wads, lump, offsets, k),
        decreases n - i,
    {
        if !texture_reader.entry_ok(i) {
            assert(!spec_texture_ok(wads, lump, offsets, i as int));
            return None;
        }
        let entry = match texture_reader.get(i) {
            Some(r) => r,
            None => return None,
        };
        let ghost d = spec_entry(lump, offsets, i as int);
        assert(entry.data() == d);
        let name = match entry.get_image_name() {
            Ok(s) => s,
            Err(_) => {
                assert(!spec_texture_ok(wads, lump, offsets, i as int));
                return None;
            },
        };
        let image_data = if entry.has_local_image_data() {
            let data = entry.raw_data();
            if !mipmapped_ok(data) {
                assert(!spec_texture_ok(wads, lump, offsets, i as int));
                return None;
            }
            WadArchive::decode_mipmaped_image_from_reader(data)
        } else {
            let search_name = to_uppercase(name);
            proof {
                assert(name@ == decode_utf8(spec_entry_name(d)));
            }
            match wad_resources.find(search_name.as_str()) {
                Some((archive, file)) => {
                    let kind = file.kind();
                    if !(kind == TextureType::MipmappedImage || kind == TextureType::Decal) {
                        assert(!spec_texture_ok(wads, lump, offsets, i as int));
                        return None;
                    }
                    let data = match archive.file_data(file) {
                        Some(data) => data,
                        None => {
                            assert(!spec_texture_ok(wads, lump, offsets, i as int));
                            return None;
                        },
                    };
                    if !mipmapped_ok(data) {
                        assert(!spec_texture_ok(wads, lump, offsets, i as int));
                        return None;
                    }
                    archive.decode_mipmaped_image(file)
                },
                None => {
                    assert(!spec_texture_ok(wads, lump, offsets, i as int));
                    return None;
                },
            }
        };
        textures.push(TextureInfo { name: name.to_owned(), image_data });
        assert(spec_texture_matches(textures@[i as int], wads, lump, offsets, i as int));
        i += 1;
    }
    Some(textures)
}

// ---- the archives a map names ---------------------------------------------------

/// The pieces of `s` between semicolons, as `str::split(';')` yields them:
/// one more piece than there are semicolons, empty pieces included.
pub open spec fn spec_pieces(s: Seq<char>) -> Seq<Seq<char>>
    decreases s.len(),
{
    if s.len() == 0 {
        seq![Seq::<char>::empty()]
    } else if s.last() == ';' {
        spec_pieces(s.drop_last()).push(Seq::empty())
    } else {
        let p = spec_pieces(s.drop_last());
        p.update(p.len() - 1, p.last().push(s.last()))
    }
}

proof fn lemma_pieces_nonempty(s: Seq<char>)
    ensures
        spec_pieces(s).len() >= 1,
    decreases s.len(),
{
    if s.len() > 0 {
        lemma_pieces_nonempty(s.drop_last());
    }
}

/// The texts of some string slices.
pub open spec fn spec_strs(v: Seq<&str>) -> Seq<Seq<char>> {
    v.map_values(|p: &str| p@)
}

/// Splits `s` at each semicolon.
fn split_semicolons<'a>(s: &'a str) -> (res: Vec<&'a str>)
    ensures
        spec_strs(res@) == spec_pieces(s@),
{
    let len = s.unicode_len();
    let mut pieces: Vec<&'a str> = Vec::new();
    let mut start: usize = 0;
    let mut i: usize = 0;
    assert(s@.take(0) =~= Seq::<char>::empty());
    assert(s@.subrange(0, 0) =~= Seq::<char>::empty());
    assert(spec_strs(pieces@) =~= Seq::<Seq<char>>::empty());
    while i < len
        invariant
            len == s@.len(),
            0 <= start <= i <= len,
            spec_strs(pieces@).push(s@.subrange(start as int, i as int)) == spec_pieces(s@.take(i as int)),
        decreases len - i,
    {
        let c = s.get_char(i);
        proof {
            let t = s@.take(i + 1);
            assert(t.drop_last() =~= s@.take(i as int));
            assert(t.last() == c);
            lemma_pieces_nonempty(s@.take(i as int));
        }
        if c == ';' {
            pieces.push(s.substring_char(start, i));
            start = i + 1;
            assert(s@.subrange(start as int, i + 1) =~= Seq::<char>::empty());
            assert(spec_strs(pieces@).push(s@.subrange(start as int, i + 1)) =~= spec_pieces(s@.take(i + 1)));
        } else {
            assert(s@.subrange(start as int, i + 1) =~= s@.subrange(start as int, i as int).push(c));
            assert(spec_strs(pieces@).push(s@.subrange(start as int, i + 1)) =~= spec_pieces(s@.take(i + 1)));
        }
        i += 1;
    }
    pieces.push(s.substring_char(start, len));
    assert(s@.take(len as int) =~= s@);
    assert(spec_strs(pieces@) =~= spec_pieces(s@));
    pieces
}

/// A path that names an archive relative to the game's root: its text after
/// the prefix `\quiver\`, which it must start with.
pub open spec fn spec_relative_path(p: Seq<char>) -> Option<Seq<char>> {
    if p.len() >= 8 && p.subrange(0, 8) == "\\quiver\\"@ {
        Some(p.subrange(8, p.len() as int))
    } else {
        None
    }
}

/// The relative paths of some pieces, in order; `None` when one lacks the
/// prefix.
pub open spec fn spec_relative_paths(pieces: Seq<Seq<char>>) -> Option<Seq<Seq<char>>>
    decreases pieces.len(),
{
    if pieces.len() == 0 {
        Some(Seq::empty())
    } else {
        match (spec_relative_paths(pieces.drop_last()), spec_relative_path(pieces.last())) {
            (Some(ps), Some(p)) => Some(ps.push(p)),
            _ => None,
        }
    }
}

/// The archive paths that the `wad` keys of the entities name, in order.
pub open spec fn spec_wad_paths(es: Seq<BspEntity>) -> Option<Seq<Seq<char>>>
    decreases es.len(),
{
    if es.len() == 0 {
        Some(Seq::empty())
    } else {
        let last = match spec_entity_get(es.last().0@, "wad") {
            Some(v) => spec_relative_paths(spec_pieces(v@)),
            None => Some(Seq::empty()),
        };
        match (spec_wad_paths(es.drop_last()), last) {
            (Some(ps), Some(l)) => Some(ps + l),
            _ => None,
        }
    }
}

/// The paths, relative to the game's root, of the texture archives that the
/// `wad` keys of the entities name (a list separated by semicolons, each
/// starting with `\quiver\`); `None` when a path lacks that prefix.
pub fn wad_paths<'a>(entities: &Vec<BspEntity<'a>>) -> (res: Option<Vec<&'a str>>)
    ensures
        match spec_wad_paths(entities@) {
            Some(ps) => res matches Some(v) && spec_strs(v@) == ps,
            None => res is None,
        },
{
    let mut paths: Vec<&'a str> = Vec::new();
    let n = entities.len();
    let mut i: usize = 0;
    while i < n
        invariant
            n == entities@.len(),
            0 <= i <= n,
            spec_wad_paths(entities@.take(i as int)) == Some(spec_strs(paths@)),
        decreases n - i,
    {
        proof {
            let t = entities@.take(i + 1);
            assert(t.drop_last() =~= entities@.take(i as int));
            assert(t.last() == entities@[i as int]);
        }
        match entities[i].get("wad") {
            Some(value) => {
                let pieces = split_semicolons(value);
                let m = pieces.len();
                let mut j: usize = 0;
                let ghost before = spec_strs(paths@);
                while j < m
                    invariant
                        m == pieces@.len(),
                        n == entities@.len(),
                        i < n,
                        spec_entity_get(entities@[i as int].0@, "wad") == Some(value),
                        spec_wad_paths(entities@.take(i as int)) == Some(before),
                        spec_strs(pieces@) == spec_pieces(value@),
                        0 <= j <= m,
                        spec_relative_paths(spec_strs(pieces@).take(j as int)) matches Some(ps) && spec_strs(
                            paths@,
                        ) == before + ps,
                    decreases m - j,
                {
                    proof {
                        let t = spec_strs(pieces@).take(j + 1);
                        assert(t.drop_last() =~= spec_strs(pieces@).take(j as int));
                        assert(t.last() == pieces@[j as int]@);
                    }
                    let piece = pieces[j];
                    assert(spec_strs(pieces@)[j as int] == piece@);
                    let plen = piece.unicode_len();
                    if plen < 8 {
                        proof {
                            lemma_relative_paths_none(spec_strs(pieces@), j as int);
                            lemma_wad_paths_none(entities@, i as int);
                        }
                        return None;
                    }
                    let head = piece.substring_char(0, 8);
                    if !str_eq(head, "\\quiver\\") {
                        proof {
                            lemma_relative_paths_none(spec_strs(pieces@), j as int);
                            lemma_wad_paths_none(entities@, i as int);
                        }
                        return None;
                    }
                    let rest = piece.substring_char(8, plen);
                    proof {
                        let ps = spec_relative_paths(spec_strs(pieces@).take(j as int)).unwrap();
                        assert(spec_relative_path(piece@) == Some(rest@));
                        assert(spec_relative_paths(spec_strs(pieces@).take(j + 1)) == Some(ps.push(rest@)));
                        assert(spec_strs(paths@.push(rest)) =~= spec_strs(paths@).push(rest@));
                        assert(spec_strs(paths@.push(rest)) =~= before + ps.push(rest@));
                    }
                    paths.push(rest);
                    j += 1;
                }
                assert(spec_strs(pieces@).take(m as int) =~= spec_pieces(value@));
            },
            None => {
                assert(spec_strs(paths@) =~= spec_strs(paths@) + Seq::<Seq<char>>::empty());
            },
        }
        i += 1;
    }
    assert(entities@.take(n as int) =~= entities@);
    Some(paths)
}

proof fn lemma_relative_paths_none(pieces: Seq<Seq<char>>, j: int)
    requires
        0 <= j < pieces.len(),
        spec_relative_path(pieces[j]) is None,
    ensures
        spec_relative_paths(pieces) is None,
    decreases pieces.len(),
{
    if j < pieces.len() - 1 {
        assert(pieces.drop_last()[j] == pieces[j]);
        lemma_relative_paths_none(pieces.drop_last(), j);
    }
}

proof fn lemma_wad_paths_none(es: Seq<BspEntity>, i: int)
    requires
        0 <= i < es.len(),
        spec_entity_get(es[i].0@, "wad") matches Some(v) && spec_relative_paths(spec_pieces(v@)) is None,
    ensures
        spec_wad_paths(es) is None,
    decreases es.len(),
{
    if i < es.len() - 1 {
        assert(es.drop_last()[i] == es[i]);
        lemma_wad_paths_none(es.drop_last(), i);
    }
}

} // verus!
