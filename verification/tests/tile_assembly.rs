use silica::document::{ProcreateFile, SilicaLayer};
use silica::error::NsArchiveError;
use silica::ns_archive::{NsKeyedArchive, NsValue};
use silica::tiles::ArchiveEntry;
use silica::tiling::{Size, TilingMeta};

fn bare_layer(uuid: &str, width: u32, height: u32) -> SilicaLayer {
    SilicaLayer {
        blend: 0,
        clipped: false,
        hidden: false,
        mask: None,
        name: None,
        opacity: 255,
        size_width: width,
        size_height: height,
        uuid: uuid.to_string(),
        version: 1,
        image: None,
    }
}

fn entry(name: &str, raw: &[u8]) -> ArchiveEntry {
    ArchiveEntry { name: name.to_string(), data: lzokay::compress::compress(raw).unwrap() }
}

#[test]
fn tiles_assemble_into_declared_dimensions() {
    // canvas 3x2, tile edge 2: two columns (second 1 wide), one row
    let meta = TilingMeta::compute(Size { width: 3, height: 2 }, 2).unwrap();
    let mut layer = bare_layer("aaaa/", 3, 2);
    // full tile at (0,0): 2x2 pixels, value 1..16
    let t00: Vec<u8> = (1..=16).collect();
    // edge tile at (1,0): 1x2 pixels, value 101..108
    let t10: Vec<u8> = (101..=108).collect();
    let entries = vec![entry("aaaa/0~0.chunk", &t00), entry("aaaa/1~0.chunk", &t10)];
    layer.load_image(&meta, &entries).unwrap();
    let img = layer.image.unwrap();
    assert_eq!(img.width, 3);
    assert_eq!(img.height, 2);
    // row 0: tile(0,0) row 0, then tile(1,0) row 0
    // row 1: tile(0,0) row 1, then tile(1,0) row 1
    assert_eq!(
        img.data,
        vec![
            1, 2, 3, 4, 5, 6, 7, 8, 101, 102, 103, 104,
            9, 10, 11, 12, 13, 14, 15, 16, 105, 106, 107, 108,
        ],
    );
}

#[test]
fn unrelated_entries_are_skipped() {
    let meta = TilingMeta::compute(Size { width: 1, height: 1 }, 2).unwrap();
    let mut layer = bare_layer("bbbb/", 1, 1);
    let entries = vec![
        entry("cccc/0~0.chunk", &[9, 9, 9, 9]),
        ArchiveEntry { name: "Document.archive".to_string(), data: vec![1, 2, 3] },
    ];
    layer.load_image(&meta, &entries).unwrap();
    let img = layer.image.unwrap();
    assert_eq!(img.data, vec![0, 0, 0, 0]);
}

#[test]
fn malformed_tile_suffix_is_fatal() {
    let meta = TilingMeta::compute(Size { width: 2, height: 2 }, 2).unwrap();
    let mut layer = bare_layer("dddd/", 2, 2);
    let entries = vec![entry("dddd/first.chunk", &[0; 16])];
    assert!(matches!(
        layer.load_image(&meta, &entries),
        Err(NsArchiveError::MalformedTileName)
    ));
}

#[test]
fn tile_outside_the_grid_is_malformed() {
    let meta = TilingMeta::compute(Size { width: 2, height: 2 }, 2).unwrap();
    let mut layer = bare_layer("eeee/", 2, 2);
    let entries = vec![entry("eeee/5~0.chunk", &[0; 16])];
    assert!(matches!(
        layer.load_image(&meta, &entries),
        Err(NsArchiveError::MalformedTileName)
    ));
}

#[test]
fn corrupt_tile_stream_is_fatal() {
    let meta = TilingMeta::compute(Size { width: 2, height: 2 }, 2).unwrap();
    let mut layer = bare_layer("ffff/", 2, 2);
    let entries = vec![ArchiveEntry { name: "ffff/0~0.chunk".to_string(), data: vec![0xff, 0xff] }];
    assert!(matches!(
        layer.load_image(&meta, &entries),
        Err(NsArchiveError::DecompressionFailed)
    ));
}

#[test]
fn wrong_decompressed_length_is_fatal() {
    let meta = TilingMeta::compute(Size { width: 2, height: 2 }, 2).unwrap();
    let mut layer = bare_layer("gggg/", 2, 2);
    // the tile should hold 16 bytes; this stream holds 8
    let entries = vec![entry("gggg/0~0.chunk", &[7; 8])];
    assert!(matches!(
        layer.load_image(&meta, &entries),
        Err(NsArchiveError::DecompressionFailed)
    ));
}

#[test]
fn whole_document_assembles_and_renders() {
    // 2x1 canvas, one layer with one 2x1 tile: red and half-transparent green
    let layer_class = NsValue::Dict(vec![(
        "$classname".to_string(),
        NsValue::Text("SilicaLayer".to_string()),
    )]);
    let layer = NsValue::Dict(vec![
        ("$class".to_string(), NsValue::Uid(5)),
        ("blend".to_string(), NsValue::Integer(0)),
        ("clipped".to_string(), NsValue::Boolean(false)),
        ("hidden".to_string(), NsValue::Boolean(false)),
        ("name".to_string(), NsValue::Null),
        ("opacity".to_string(), NsValue::Real(255)),
        ("UUID".to_string(), NsValue::Text("hhhh/".to_string())),
        ("version".to_string(), NsValue::Integer(1)),
        ("sizeWidth".to_string(), NsValue::Integer(2)),
        ("sizeHeight".to_string(), NsValue::Integer(1)),
    ]);
    let thumb = NsValue::Dict(vec![
        ("blend".to_string(), NsValue::Integer(0)),
        ("clipped".to_string(), NsValue::Boolean(false)),
        ("hidden".to_string(), NsValue::Boolean(false)),
        ("name".to_string(), NsValue::Null),
        ("opacity".to_string(), NsValue::Real(255)),
        ("UUID".to_string(), NsValue::Text("tttt/".to_string())),
        ("version".to_string(), NsValue::Integer(1)),
        ("sizeWidth".to_string(), NsValue::Integer(2)),
        ("sizeHeight".to_string(), NsValue::Integer(1)),
    ]);
    let nka = NsKeyedArchive {
        objects: vec![
            NsValue::Text("$null".to_string()),
            NsValue::Dict(vec![
                ("unwrappedLayers".to_string(), NsValue::Uid(2)),
                ("size".to_string(), NsValue::Text("{2, 1}".to_string())),
                ("tileSize".to_string(), NsValue::Integer(2)),
                ("composite".to_string(), NsValue::Uid(3)),
            ]),
            NsValue::Dict(vec![(
                "NS.objects".to_string(),
                NsValue::Array(vec![NsValue::Uid(4)]),
            )]),
            thumb,
            layer,
            layer_class,
        ],
        top: vec![("root".to_string(), NsValue::Uid(1))],
    };
    let raw: [u8; 8] = [255, 0, 0, 255, 0, 255, 0, 128];
    let entries = vec![entry("hhhh/0~0.chunk", &raw)];
    let art = ProcreateFile::from_ns(&nka, &entries).unwrap();
    let mut canvas = silica::raster::Image::try_new(art.size.width, art.size.height).unwrap();
    silica::composite::render(&mut canvas, &art.layers);
    // over a transparent canvas the layer's own pixels come through unchanged
    assert_eq!(canvas.data, vec![255, 0, 0, 255, 0, 255, 0, 128]);
}
