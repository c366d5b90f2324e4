use crate::document::{LayerView, SilicaLayer};
use crate::error::{NsArchiveError, NsErrorView};
use crate::parse::{
    find_char_from, parse_u32_range, spec_find, spec_parse_u32, spec_starts_with, str_starts_with,
};
use crate::raster::{paste, spec_paste, Image, ImageView};
use crate::tiling::{spec_tile_extent, TilingMeta};
use vstd::arithmetic::div_mod::lemma_fundamental_div_mod;
use vstd::prelude::*;
use vstd::string::StrSliceExecFns;

verus! {

/// One raw entry of the container: its name and its compressed bytes.
#[derive(Debug)]
pub struct ArchiveEntry {
    pub name: String,
    pub data: Vec<u8>,
}

/// What an LZO block decompresses to in a buffer of `out_len` bytes, or
/// nothing when the stream is corrupt or overruns the buffer. The outcome
/// depends on the compressed bytes and the buffer size alone.
pub uninterp spec fn lzo_of(src: Seq<u8>, out_len: nat) -> Option<Seq<u8>>;

/// The block decompresses successfully and fills the buffer exactly.
pub open spec fn spec_lzo_exact(src: Seq<u8>, n: nat) -> bool {
    match lzo_of(src, n) {
        Option::Some(s) => s.len() == n,
        Option::None => false,
    }
}

/// Relies on lzokay::decompress::decompress: a pure function of the
/// compressed bytes and the output buffer's size that fills a prefix of the
/// buffer and returns that prefix's length, or fails on corrupt or
/// overrunning input.
#[verifier::external_body]
fn lzo_decompress_raw(src: &Vec<u8>, out_len: usize) -> (r: Result<
    (Vec<u8>, usize),
    NsArchiveError,
>)
    ensures
        match r {
            Result::Ok(p) => p.0@.len() == out_len && p.1 <= out_len && lzo_of(src@,
                out_len as nat) == Option::Some(p.0@.take(p.1 as int)),
            Result::Err(e) => e == NsArchiveError::DecompressionFailed && lzo_of(src@,
                out_len as nat) is None,
        },
{
    let mut dst = vec![0u8; out_len];
    match lzokay::decompress::decompress(src.as_slice(), &mut dst) {
        Ok(n) => Ok((dst, n)),
        Err(_) => Err(NsArchiveError::DecompressionFailed),
    }
}

/// Decompresses a tile to exactly `out_len` bytes; corrupt input or any
/// other decompressed length is a decompression failure.
fn decompress_tile(src: &Vec<u8>, out_len: usize) -> (r: Result<Vec<u8>, NsArchiveError>)
    ensures
        match r {
            Result::Ok(v) => spec_lzo_exact(src@, out_len as nat) && v@.len() == out_len && lzo_of(
                src@, out_len as nat) == Option::Some(v@),
            Result::Err(e) => e@ == NsErrorView::DecompressionFailed && !spec_lzo_exact(src@,
                out_len as nat),
        },
{
    match lzo_decompress_raw(src, out_len) {
        Err(e) => Err(e),
        Ok((v, n)) => {
            if n == out_len {
                proof {
                    assert(v@.take(n as int) =~= v@);
                }
                Ok(v)
            } else {
                Err(NsArchiveError::DecompressionFailed)
            }
        },
    }
}

/// Column and row encoded in a tile entry's name suffix, written `col~row`
/// in decimal; anything else is malformed.
pub open spec fn spec_parse_tile_pos(s: Seq<char>) -> Option<(u32, u32)> {
    let t = spec_find(s, 0, '~');
    if t >= s.len() {
        Option::None
    } else {
        match spec_parse_u32(s.subrange(0, t)) {
            Option::None => Option::None,
            Option::Some(col) => match spec_parse_u32(s.subrange(t + 1, s.len() as int)) {
                Option::None => Option::None,
                Option::Some(row) => Option::Some((col, row)),
            },
        }
    }
}

/// Parses a tile name suffix as `col~row`.
fn parse_tile_pos(s: &str) -> (r: Option<(u32, u32)>)
    ensures
        r == spec_parse_tile_pos(s@),
{
    let n = s.unicode_len();
    let t = find_char_from(s, 0, '~');
    if t >= n {
        return None;
    }
    let col = match parse_u32_range(s, 0, t) {
        Some(c) => c,
        None => {
            return None;
        },
    };
    let row = match parse_u32_range(s, t + 1, n) {
        Some(v) => v,
        None => {
            return None;
        },
    };
    Some((col, row))
}

/// The bounds that make the edge-tile arithmetic meaningful: a positive tile
/// edge, and overhangs no larger than it.
pub open spec fn meta_ok(m: TilingMeta) -> bool {
    &&& m.tile_size >= 1
    &&& m.diff.width <= m.tile_size
    &&& m.diff.height <= m.tile_size
}

/// Effect of one container entry on a layer's buffer. Entries named for
/// other layers are skipped. A matching name must continue `col~row` up to
/// the first extension separator, and name a tile of the document grid; its
/// bytes must decompress to exactly the tile's area. The tile lands at its
/// grid offset, clipped to the buffer.
pub open spec fn spec_apply_entry(
    img: ImageView,
    uuid: Seq<char>,
    meta: TilingMeta,
    e: ArchiveEntry,
) -> Result<ImageView, NsErrorView> {
    let nm = e.name@;
    if !spec_starts_with(nm, uuid) {
        Result::Ok(img)
    } else {
        let stop = spec_find(nm, uuid.len() as int, '.');
        match spec_parse_tile_pos(nm.subrange(uuid.len() as int, stop)) {
            Option::None => Result::Err(NsErrorView::MalformedTileName),
            Option::Some(pos) => {
                if pos.0 >= meta.columns || pos.1 >= meta.rows {
                    Result::Err(NsErrorView::MalformedTileName)
                } else {
                    let tw = spec_tile_extent(pos.0 as int, meta.columns as int,
                        meta.tile_size as int, meta.diff.width as int);
                    let th = spec_tile_extent(pos.1 as int, meta.rows as int,
                        meta.tile_size as int, meta.diff.height as int);
                    if 4 * tw * th > usize::MAX {
                        Result::Err(NsErrorView::DecompressionFailed)
                    } else if !spec_lzo_exact(e.data@, (4 * tw * th) as nat) {
                        Result::Err(NsErrorView::DecompressionFailed)
                    } else {
                        let tile = ImageView {
                            width: tw as nat,
                            height: th as nat,
                            data: lzo_of(e.data@, (4 * tw * th) as nat)->Some_0,
                        };
                        Result::Ok(
                            ImageView {
                                width: img.width,
                                height: img.height,
                                data: spec_paste(img, tile, pos.0 * meta.tile_size as int,
                                    pos.1 * meta.tile_size as int),
                            },
                        )
                    }
                }
            },
        }
    }
}

/// Paints one entry's tile into the buffer if the entry belongs to this
/// layer.
fn apply_entry(img: &mut Image, uuid: &str, meta: &TilingMeta, e: &ArchiveEntry) -> (r: Result<
    (),
    NsArchiveError,
>)
    requires
        old(img).wf(),
        meta_ok(*meta),
    ensures
        final(img).wf(),
        final(img)@.width == old(img)@.width,
        final(img)@.height == old(img)@.height,
        match r {
            Result::Ok(u) => spec_apply_entry(old(img)@, uuid@, *meta, *e) == Result::Ok::<
                ImageView,
                NsErrorView,
            >(final(img)@),
            Result::Err(er) => spec_apply_entry(old(img)@, uuid@, *meta, *e) == Result::Err::<
                ImageView,
                NsErrorView,
            >(er@) && final(img)@ == old(img)@,
        },
{
    let ghost pre = img@;
    let nm = e.name.as_str();
    if !str_starts_with(nm, uuid) {
        return Ok(());
    }
    let ulen = uuid.unicode_len();
    let stop = find_char_from(nm, ulen, '.');
    let suffix = nm.substring_char(ulen, stop);
    let pos = match parse_tile_pos(suffix) {
        Some(p) => p,
        None => {
            return Err(NsArchiveError::MalformedTileName);
        },
    };
    let (col, row) = pos;
    if col >= meta.columns || row >= meta.rows {
        return Err(NsArchiveError::MalformedTileName);
    }
    let tw: u32 = meta.tile_width(col);
    let th: u32 = meta.tile_height(row);
    proof {
        assert((tw as u64) * (th as u64) <= 0xffff_ffffu64 * 0xffff_ffffu64) by (nonlinear_arith)
            requires
                tw as u64 <= 0xffff_ffffu64,
                th as u64 <= 0xffff_ffffu64,
        ;
        lemma_fundamental_div_mod(usize::MAX as int, 4);
        assert(4 * (tw as int) * (th as int) == 4 * ((tw as int) * (th as int)))
            by (nonlinear_arith);
    }
    let twth: u64 = (tw as u64) * (th as u64);
    let quarter: u64 = (usize::MAX as u64) / 4;
    if twth > quarter {
        return Err(NsArchiveError::DecompressionFailed);
    }
    let expected: usize = (4 * twth) as usize;
    let bytes = match decompress_tile(&e.data, expected) {
        Ok(b) => b,
        Err(er) => {
            return Err(er);
        },
    };
    let tile = Image { width: tw, height: th, data: bytes };
    proof {
        assert(tile.wf());
    }
    proof {
        assert((col as u64) * (meta.tile_size as u64) <= 0xffff_ffffu64 * 0xffff_ffffu64)
            by (nonlinear_arith)
            requires
                col as u64 <= 0xffff_ffffu64,
                meta.tile_size as u64 <= 0xffff_ffffu64,
        ;
        assert((row as u64) * (meta.tile_size as u64) <= 0xffff_ffffu64 * 0xffff_ffffu64)
            by (nonlinear_arith)
            requires
                row as u64 <= 0xffff_ffffu64,
                meta.tile_size as u64 <= 0xffff_ffffu64,
        ;
    }
    let ox: u64 = (col as u64) * (meta.tile_size as u64);
    let oy: u64 = (row as u64) * (meta.tile_size as u64);
    paste(img, &tile, ox, oy);
    proof {
        let sv = spec_apply_entry(pre, uuid@, *meta, *e);
        assert(img@.data =~= spec_paste(pre, tile@, ox as int, oy as int));
        assert(sv matches Result::Ok(iv) && img@ =~= iv);
    }
    Ok(())
}

/// The buffer after every entry from index `i` on has been applied.
pub open spec fn spec_load_tiles(
    img: ImageView,
    uuid: Seq<char>,
    meta: TilingMeta,
    entries: Seq<ArchiveEntry>,
    i: int,
) -> Result<ImageView, NsErrorView>
    decreases entries.len() - i,
{
    if i < 0 || i >= entries.len() {
        Result::Ok(img)
    } else {
        match spec_apply_entry(img, uuid, meta, entries[i]) {
            Result::Err(e) => Result::Err(e),
            Result::Ok(img2) => spec_load_tiles(img2, uuid, meta, entries, i + 1),
        }
    }
}

/// A fully transparent buffer of the given dimensions.
pub open spec fn spec_blank_image(w: nat, h: nat) -> ImageView {
    ImageView { width: w, height: h, data: Seq::new(4 * w * h, |i: int| 0u8) }
}

/// The assembled state of one layer: a transparent buffer of the declared
/// size filled by every entry carrying the layer's uuid; a declared size
/// whose buffer this machine cannot address is rejected as a type mismatch.
pub open spec fn spec_load_layer(
    l: LayerView,
    meta: TilingMeta,
    entries: Seq<ArchiveEntry>,
) -> Result<LayerView, NsErrorView> {
    if 4 * (l.size_width as int) * (l.size_height as int) > usize::MAX {
        Result::Err(NsErrorView::TypeMismatch)
    } else {
        match spec_load_tiles(spec_blank_image(l.size_width as nat, l.size_height as nat), l.uuid,
            meta, entries, 0) {
            Result::Err(e) => Result::Err(e),
            Result::Ok(img) => Result::Ok(LayerView { image: Option::Some(img), ..l }),
        }
    }
}

proof fn lemma_load_tiles_dims(
    img: ImageView,
    uuid: Seq<char>,
    meta: TilingMeta,
    entries: Seq<ArchiveEntry>,
    i: int,
)
    ensures
        spec_load_tiles(img, uuid, meta, entries, i) matches Result::Ok(r) ==> r.width
            == img.width && r.height == img.height,
    decreases entries.len() - i,
{
    if 0 <= i < entries.len() {
        match spec_apply_entry(img, uuid, meta, entries[i]) {
            Result::Ok(img2) => {
                lemma_load_tiles_dims(img2, uuid, meta, entries, i + 1);
            },
            Result::Err(e) => {},
        }
    }
}

/// An assembled pixel buffer's dimensions equal the layer's declared width
/// and height exactly, whatever the entries held.
pub proof fn lemma_assembled_dimensions(l: LayerView, meta: TilingMeta, entries: Seq<ArchiveEntry>)
    requires
        spec_load_layer(l, meta, entries) is Ok,
    ensures
        spec_load_layer(l, meta, entries) matches Result::Ok(l2) && (l2.image
            matches Option::Some(img) && img.width == l.size_width && img.height
            == l.size_height) && l2.size_width == l.size_width && l2.size_height
            == l.size_height,
{
    lemma_load_tiles_dims(spec_blank_image(l.size_width as nat, l.size_height as nat), l.uuid,
        meta, entries, 0);
}

impl SilicaLayer {
    /// Assembles this layer's pixel buffer: scans the container entries for
    /// names prefixed by the layer's uuid, decompresses each matching tile
    /// and paints it at its grid offset. The buffer's dimensions are exactly
    /// the layer's declared size.
    pub fn load_image(&mut self, meta: &TilingMeta, entries: &Vec<ArchiveEntry>) -> (r: Result<
        (),
        NsArchiveError,
    >)
        requires
            meta_ok(*meta),
        ensures
            match r {
                Result::Ok(u) => spec_load_layer(old(self)@, *meta, entries@) == Result::Ok::<
                    LayerView,
                    NsErrorView,
                >(final(self)@) && (final(self)@.image matches Option::Some(img) && img.wf()
                    && img.width == old(self).size_width && img.height == old(self).size_height),
                Result::Err(e) => spec_load_layer(old(self)@, *meta, entries@) == Result::Err::<
                    LayerView,
                    NsErrorView,
                >(e@) && *final(self) == *old(self),
            },
    {
        let mut img = match Image::try_new(self.size_width, self.size_height) {
            Some(b) => b,
            None => {
                return Err(NsArchiveError::TypeMismatch);
            },
        };
        let ghost blank = spec_blank_image(self.size_width as nat, self.size_height as nat);
        proof {
            assert(img@ =~= blank);
        }
        let n = entries.len();
        let mut i: usize = 0;
        while i < n
            invariant
                img.wf(),
                img@.width == self.size_width,
                img@.height == self.size_height,
                meta_ok(*meta),
                self == old(self),
                4 * (self.size_width as int) * (self.size_height as int) <= usize::MAX,
                blank == spec_blank_image(self.size_width as nat, self.size_height as nat),
                n == entries@.len(),
                i <= n,
                spec_load_tiles(img@, self.uuid@, *meta, entries@, i as int) == spec_load_tiles(
                    blank, self.uuid@, *meta, entries@, 0),
            decreases n - i,
        {
            match apply_entry(&mut img, self.uuid.as_str(), meta, &entries[i]) {
                Ok(u) => {},
                Err(e) => {
                    return Err(e);
                },
            }
            i = i + 1;
        }
        self.image = Some(img);
        proof {
            let lv = spec_load_layer(old(self)@, *meta, entries@);
            assert(lv matches Result::Ok(l2) && self@ =~= l2);
        }
        Ok(())
    }
}

} // verus!
