use crate::error::{NsArchiveError, NsErrorView};
use crate::ns_archive::{
    as_dict, spec_as_dict, spec_class_name, spec_decode_bool, spec_decode_dict,
    spec_decode_opt_text, spec_decode_text, spec_decode_u32, spec_decode_u64, spec_decode_unit,
    spec_field, str_eq, NsKeyedArchive, NsValue,
};
use crate::tiles::{meta_ok, spec_load_layer, ArchiveEntry};
use crate::tiling::{spec_meta, TilingMeta};
use crate::parse::{
    find_char_from, parse_u32_range, skip_spaces_from, spec_find, spec_parse_u32, spec_skip_spaces,
};
use crate::raster::{Image, ImageView};
use crate::tiling::Size;
use vstd::prelude::*;
use vstd::string::StrSliceExecFns;

verus! {

/// One drawable layer of the document tree: blend id, clip and visibility
/// flags, opacity in 1/255 steps, declared pixel size, the tile-name prefix
/// `uuid`, an optional nested mask layer, and the pixel buffer once tile
/// assembly has filled it.
#[derive(Debug)]
pub struct SilicaLayer {
    pub blend: u32,
    pub clipped: bool,
    pub hidden: bool,
    pub mask: Option<Box<SilicaLayer>>,
    pub name: Option<String>,
    pub opacity: u8,
    pub size_width: u32,
    pub size_height: u32,
    pub uuid: String,
    pub version: u64,
    pub image: Option<Image>,
}

/// A group of layers; the order of `children` is render-significant: index 0
/// is topmost and is drawn last.
#[derive(Debug)]
pub struct SilicaGroup {
    pub hidden: bool,
    pub children: Vec<SilicaLayers>,
    pub name: String,
}

/// A node of the layer tree: either a drawable layer or a nested group.
#[derive(Debug)]
pub enum SilicaLayers {
    Layer(SilicaLayer),
    Group(SilicaGroup),
}

/// The decoded document: optional author, canvas size, the standalone
/// pre-flattened thumbnail layer, and the top-level layers wrapped in a
/// synthetic, never-hidden root group.
#[derive(Debug)]
pub struct ProcreateFile {
    pub author_name: Option<String>,
    pub composite: SilicaLayer,
    pub size: Size,
    pub layers: SilicaGroup,
}

/// Mathematical image of a layer. The nested mask layer is abstracted to its
/// presence: the decoder never populates it, and the renderer never reads it.
#[verifier::ext_equal]
pub struct LayerView {
    pub blend: u32,
    pub clipped: bool,
    pub hidden: bool,
    pub mask_present: bool,
    pub name: Option<Seq<char>>,
    pub opacity: u8,
    pub size_width: u32,
    pub size_height: u32,
    pub uuid: Seq<char>,
    pub version: u64,
    pub image: Option<ImageView>,
}

/// Mathematical image of a group.
#[verifier::ext_equal]
pub struct GroupView {
    pub hidden: bool,
    pub children: Seq<NodeView>,
    pub name: Seq<char>,
}

/// Mathematical image of a tree node.
pub enum NodeView {
    Layer(LayerView),
    Group(GroupView),
}

/// Mathematical image of a decoded document.
#[verifier::ext_equal]
pub struct FileView {
    pub author_name: Option<Seq<char>>,
    pub composite: LayerView,
    pub size: Size,
    pub layers: GroupView,
}

pub open spec fn layer_view(l: SilicaLayer) -> LayerView {
    LayerView {
        blend: l.blend,
        clipped: l.clipped,
        hidden: l.hidden,
        mask_present: l.mask is Some,
        name: match l.name {
            Option::Some(s) => Option::Some(s@),
            Option::None => Option::None,
        },
        opacity: l.opacity,
        size_width: l.size_width,
        size_height: l.size_height,
        uuid: l.uuid@,
        version: l.version,
        image: match l.image {
            Option::Some(img) => Option::Some(img@),
            Option::None => Option::None,
        },
    }
}

pub open spec fn node_view(n: SilicaLayers) -> NodeView
    decreases n,
{
    match n {
        SilicaLayers::Layer(l) => NodeView::Layer(layer_view(l)),
        SilicaLayers::Group(g) => NodeView::Group(group_view(g)),
    }
}

pub open spec fn group_view(g: SilicaGroup) -> GroupView
    decreases g,
{
    GroupView {
        hidden: g.hidden,
        name: g.name@,
        children: Seq::new(g.children@.len(), |i: int| if 0 <= i < g.children@.len() {
            node_view(g.children@[i])
        } else {
            arbitrary()
        }),
    }
}

impl View for SilicaLayer {
    type V = LayerView;

    open spec fn view(&self) -> LayerView {
        layer_view(*self)
    }
}

impl View for SilicaGroup {
    type V = GroupView;

    open spec fn view(&self) -> GroupView {
        group_view(*self)
    }
}

impl View for SilicaLayers {
    type V = NodeView;

    open spec fn view(&self) -> NodeView {
        node_view(*self)
    }
}

impl View for ProcreateFile {
    type V = FileView;

    open spec fn view(&self) -> FileView {
        FileView {
            author_name: match self.author_name {
                Option::Some(s) => Option::Some(s@),
                Option::None => Option::None,
            },
            composite: self.composite@,
            size: self.size,
            layers: self.layers@,
        }
    }
}

/// Every layer of the subtree carries a well-formed pixel buffer; the
/// compositor requires this of every node it is asked to render.
pub open spec fn node_ready(n: NodeView) -> bool
    decreases n,
{
    match n {
        NodeView::Layer(l) => l.image matches Option::Some(img) && img.wf(),
        NodeView::Group(g) => group_ready(g),
    }
}

/// All nodes of a group's child list are ready to composite.
pub open spec fn group_ready(g: GroupView) -> bool
    decreases g,
{
    forall|i: int| 0 <= i < g.children.len() ==> node_ready(#[trigger] g.children[i])
}

/// The views of a vector of tree nodes, index by index.
pub open spec fn nodes_views(s: Seq<SilicaLayers>) -> Seq<NodeView> {
    Seq::new(s.len(), |i: int| node_view(s[i]))
}

/// A canvas size written as text: `{` width `,` spaces height `}`, both
/// decimal 32-bit numbers.
pub open spec fn spec_parse_size(s: Seq<char>) -> Option<Size> {
    if s.len() < 2 || s[0] != '{' || s[s.len() - 1] != '}' {
        Option::None
    } else {
        let comma = spec_find(s, 1, ',');
        if comma >= s.len() {
            Option::None
        } else {
            let hstart = spec_skip_spaces(s, comma + 1);
            if hstart > s.len() - 1 {
                Option::None
            } else {
                match spec_parse_u32(s.subrange(1, comma)) {
                    Option::None => Option::None,
                    Option::Some(w) => match spec_parse_u32(s.subrange(hstart, s.len() - 1)) {
                        Option::None => Option::None,
                        Option::Some(h) => Option::Some(Size { width: w, height: h }),
                    },
                }
            }
        }
    }
}

/// Parses a canvas size from its textual form.
pub fn parse_size(s: &str) -> (r: Option<Size>)
    ensures
        r == spec_parse_size(s@),
{
    let n = s.unicode_len();
    if n < 2 {
        return None;
    }
    if s.get_char(0) != '{' || s.get_char(n - 1) != '}' {
        return None;
    }
    let comma = find_char_from(s, 1, ',');
    if comma >= n {
        return None;
    }
    let hstart = skip_spaces_from(s, comma + 1);
    if hstart > n - 1 {
        return None;
    }
    let w = match parse_u32_range(s, 1, comma) {
        Some(w) => w,
        None => {
            return None;
        },
    };
    let h = match parse_u32_range(s, hstart, n - 1) {
        Some(h) => h,
        None => {
            return None;
        },
    };
    Some(Size { width: w, height: h })
}

/// Required canvas size at `key`, stored as text.
pub open spec fn spec_decode_size(
    nka: NsKeyedArchive,
    dict: Seq<(String, NsValue)>,
    key: Seq<char>,
) -> Result<Size, NsErrorView> {
    match spec_field(nka, dict, key) {
        Result::Err(e) => Result::Err(e),
        Result::Ok(v) => match v {
            NsValue::Text(t) => match spec_parse_size(t@) {
                Option::Some(sz) => Result::Ok(sz),
                Option::None => Result::Err(NsErrorView::TypeMismatch),
            },
            _ => Result::Err(NsErrorView::TypeMismatch),
        },
    }
}

/// Decodes the canvas size stored as text under `key`.
pub fn decode_size(nka: &NsKeyedArchive, dict: &Vec<(String, NsValue)>, key: &str) -> (r: Result<
    Size,
    NsArchiveError,
>)
    ensures
        match r {
            Result::Ok(sz) => spec_decode_size(*nka, dict@, key@) == Result::Ok::<
                Size,
                NsErrorView,
            >(sz),
            Result::Err(e) => spec_decode_size(*nka, dict@, key@) == Result::Err::<
                Size,
                NsErrorView,
            >(e@),
        },
{
    match nka.field(dict, key) {
        Err(e) => Err(e),
        Ok(NsValue::Text(t)) => match parse_size(t.as_str()) {
            Some(sz) => Ok(sz),
            None => Err(NsArchiveError::TypeMismatch),
        },
        Ok(_) => Err(NsArchiveError::TypeMismatch),
    }
}

/// A layer record decoded field by field; the pixel buffer and the nested
/// mask start absent.
pub open spec fn spec_decode_layer(nka: NsKeyedArchive, val: NsValue) -> Result<
    LayerView,
    NsErrorView,
> {
    match spec_as_dict(nka, val) {
        Result::Err(e) => Result::Err(e),
        Result::Ok(d) => match spec_decode_u32(nka, d, "blend"@) {
            Result::Err(e) => Result::Err(e),
            Result::Ok(blend) => match spec_decode_bool(nka, d, "clipped"@) {
                Result::Err(e) => Result::Err(e),
                Result::Ok(clipped) => match spec_decode_bool(nka, d, "hidden"@) {
                    Result::Err(e) => Result::Err(e),
                    Result::Ok(hidden) => match spec_decode_opt_text(nka, d, "name"@) {
                        Result::Err(e) => Result::Err(e),
                        Result::Ok(name) => match spec_decode_unit(nka, d, "opacity"@) {
                            Result::Err(e) => Result::Err(e),
                            Result::Ok(opacity) => match spec_decode_text(nka, d, "UUID"@) {
                                Result::Err(e) => Result::Err(e),
                                Result::Ok(uuid) => match spec_decode_u64(nka, d, "version"@) {
                                    Result::Err(e) => Result::Err(e),
                                    Result::Ok(version) => match spec_decode_u32(nka, d,
                                    "sizeWidth"@) {
                                        Result::Err(e) => Result::Err(e),
                                        Result::Ok(size_width) => match spec_decode_u32(nka, d,
                                        "sizeHeight"@) {
                                            Result::Err(e) => Result::Err(e),
                                            Result::Ok(size_height) => Result::Ok(
                                                LayerView {
                                                    blend,
                                                    clipped,
                                                    hidden,
                                                    mask_present: false,
                                                    name,
                                                    opacity,
                                                    size_width,
                                                    size_height,
                                                    uuid,
                                                    version,
                                                    image: Option::None,
                                                },
                                            ),
                                        },
                                    },
                                },
                            },
                        },
                    },
                },
            },
        },
    }
}

impl SilicaLayer {
    /// Decodes a layer record; the pixel buffer and the nested mask start
    /// absent.
    pub fn decode(nka: &NsKeyedArchive, val: &NsValue) -> (r: Result<SilicaLayer, NsArchiveError>)
        ensures
            match r {
                Result::Ok(l) => spec_decode_layer(*nka, *val) == Result::Ok::<
                    LayerView,
                    NsErrorView,
                >(l@),
                Result::Err(e) => spec_decode_layer(*nka, *val) == Result::Err::<
                    LayerView,
                    NsErrorView,
                >(e@),
            },
    {
        let d = match as_dict(nka, val) {
            Ok(d) => d,
            Err(e) => {
                return Err(e);
            },
        };
        let blend = match nka.decode_u32(d, "blend") {
            Ok(v) => v,
            Err(e) => {
                return Err(e);
            },
        };
        let clipped = match nka.decode_bool(d, "clipped") {
            Ok(v) => v,
            Err(e) => {
                return Err(e);
            },
        };
        let hidden = match nka.decode_bool(d, "hidden") {
            Ok(v) => v,
            Err(e) => {
                return Err(e);
            },
        };
        let name = match nka.decode_opt_text(d, "name") {
            Ok(v) => v,
            Err(e) => {
                return Err(e);
            },
        };
        let opacity = match nka.decode_unit(d, "opacity") {
            Ok(v) => v,
            Err(e) => {
                return Err(e);
            },
        };
        let uuid = match nka.decode_text(d, "UUID") {
            Ok(v) => v,
            Err(e) => {
                return Err(e);
            },
        };
        let version = match nka.decode_u64(d, "version") {
            Ok(v) => v,
            Err(e) => {
                return Err(e);
            },
        };
        let size_width = match nka.decode_u32(d, "sizeWidth") {
            Ok(v) => v,
            Err(e) => {
                return Err(e);
            },
        };
        let size_height = match nka.decode_u32(d, "sizeHeight") {
            Ok(v) => v,
            Err(e) => {
                return Err(e);
            },
        };
        Ok(
            SilicaLayer {
                blend,
                clipped,
                hidden,
                mask: None,
                name,
                opacity,
                size_width,
                size_height,
                uuid,
                version,
                image: None,
            },
        )
    }
}

/// A group record decoded field by field; `fuel` bounds the reference depth
/// of the subtree.
pub open spec fn spec_decode_group(nka: NsKeyedArchive, val: NsValue, fuel: int) -> Result<
    GroupView,
    NsErrorView,
>
    decreases fuel, 2int, 0int,
{
    match spec_as_dict(nka, val) {
        Result::Err(e) => Result::Err(e),
        Result::Ok(d) => match spec_decode_bool(nka, d, "isHidden"@) {
            Result::Err(e) => Result::Err(e),
            Result::Ok(hidden) => match spec_decode_text(nka, d, "name"@) {
                Result::Err(e) => Result::Err(e),
                Result::Ok(name) => match spec_decode_wrapped(nka, d, "children"@, fuel) {
                    Result::Err(e) => Result::Err(e),
                    Result::Ok(children) => Result::Ok(GroupView { hidden, children, name }),
                },
            },
        },
    }
}

/// An ordered child list, unwrapped from its intermediate array-holder
/// record.
pub open spec fn spec_decode_wrapped(
    nka: NsKeyedArchive,
    dict: Seq<(String, NsValue)>,
    key: Seq<char>,
    fuel: int,
) -> Result<Seq<NodeView>, NsErrorView>
    decreases fuel, 1int, 0int,
{
    match spec_field(nka, dict, key) {
        Result::Err(e) => Result::Err(e),
        Result::Ok(holder) => match holder {
            NsValue::Dict(hd) => match spec_field(nka, hd@, "NS.objects"@) {
                Result::Err(e) => Result::Err(e),
                Result::Ok(arr) => match arr {
                    NsValue::Array(items) => spec_decode_items(nka, items@, 0, fuel),
                    _ => Result::Err(NsErrorView::TypeMismatch),
                },
            },
            _ => Result::Err(NsErrorView::TypeMismatch),
        },
    }
}

/// The tail of an item list decoded into tree nodes, polymorphically by
/// class tag.
pub open spec fn spec_decode_items(
    nka: NsKeyedArchive,
    items: Seq<NsValue>,
    i: int,
    fuel: int,
) -> Result<Seq<NodeView>, NsErrorView>
    decreases fuel, 0int, items.len() - i,
{
    if i < 0 || i >= items.len() {
        Result::Ok(Seq::empty())
    } else if fuel <= 0 {
        Result::Err(NsErrorView::TypeMismatch)
    } else {
        match spec_decode_node(nka, items[i], fuel - 1) {
            Result::Err(e) => Result::Err(e),
            Result::Ok(nv) => match spec_decode_items(nka, items, i + 1, fuel) {
                Result::Err(e) => Result::Err(e),
                Result::Ok(rest) => Result::Ok(seq![nv] + rest),
            },
        }
    }
}

/// One tree node, dispatched on its class tag: a group or a layer;
/// unrecognized tags are an explicit error.
pub open spec fn spec_decode_node(nka: NsKeyedArchive, val: NsValue, fuel: int) -> Result<
    NodeView,
    NsErrorView,
>
    decreases fuel, 3int, 0int,
{
    match spec_as_dict(nka, val) {
        Result::Err(e) => Result::Err(e),
        Result::Ok(d) => match spec_class_name(nka, d) {
            Result::Err(e) => Result::Err(e),
            Result::Ok(cls) => if cls == "SilicaGroup"@ {
                match spec_decode_group(nka, val, fuel) {
                    Result::Err(e) => Result::Err(e),
                    Result::Ok(g) => Result::Ok(NodeView::Group(g)),
                }
            } else if cls == "SilicaLayer"@ {
                match spec_decode_layer(nka, val) {
                    Result::Err(e) => Result::Err(e),
                    Result::Ok(l) => Result::Ok(NodeView::Layer(l)),
                }
            } else {
                Result::Err(NsErrorView::TypeMismatch)
            },
        },
    }
}

/// Decodes the items of a child array one by one.
pub fn decode_items(nka: &NsKeyedArchive, items: &Vec<NsValue>, fuel: usize) -> (r: Result<
    Vec<SilicaLayers>,
    NsArchiveError,
>)
    ensures
        match r {
            Result::Ok(v) => spec_decode_items(*nka, items@, 0, fuel as int) == Result::Ok::<
                Seq<NodeView>,
                NsErrorView,
            >(nodes_views(v@)),
            Result::Err(e) => spec_decode_items(*nka, items@, 0, fuel as int) == Result::Err::<
                Seq<NodeView>,
                NsErrorView,
            >(e@),
        },
    decreases fuel, 0int, 0int,
{
    let mut out: Vec<SilicaLayers> = Vec::new();
    let n = items.len();
    let mut i: usize = 0;
    proof {
        assert(nodes_views(out@) =~= Seq::<NodeView>::empty());
    }
    while i < n
        invariant
            i <= n,
            n == items@.len(),
            match spec_decode_items(*nka, items@, i as int, fuel as int) {
                Result::Ok(rest) => spec_decode_items(*nka, items@, 0, fuel as int)
                    == Result::Ok::<Seq<NodeView>, NsErrorView>(nodes_views(out@) + rest),
                Result::Err(e) => spec_decode_items(*nka, items@, 0, fuel as int) == Result::Err::<
                    Seq<NodeView>,
                    NsErrorView,
                >(e),
            },
        decreases n - i,
    {
        if fuel == 0 {
            return Err(NsArchiveError::TypeMismatch);
        }
        let nd = match SilicaLayers::decode(nka, &items[i], fuel - 1) {
            Ok(nd) => nd,
            Err(e) => {
                return Err(e);
            },
        };
        let ghost old_out = out@;
        out.push(nd);
        proof {
            assert(nodes_views(out@) =~= nodes_views(old_out) + seq![node_view(out@[
                old_out.len() as int])]);
            match spec_decode_items(*nka, items@, i + 1, fuel as int) {
                Result::Ok(rest2) => {
                    assert(nodes_views(old_out) + (seq![node_view(out@[old_out.len() as int])]
                        + rest2) =~= nodes_views(out@) + rest2);
                },
                Result::Err(_) => {},
            }
        }
        i = i + 1;
    }
    proof {
        assert(nodes_views(out@) + Seq::<NodeView>::empty() =~= nodes_views(out@));
    }
    Ok(out)
}

/// Unwraps the array-holder record under `key` and decodes its items.
pub fn decode_wrapped(
    nka: &NsKeyedArchive,
    dict: &Vec<(String, NsValue)>,
    key: &str,
    fuel: usize,
) -> (r: Result<Vec<SilicaLayers>, NsArchiveError>)
    ensures
        match r {
            Result::Ok(v) => spec_decode_wrapped(*nka, dict@, key@, fuel as int) == Result::Ok::<
                Seq<NodeView>,
                NsErrorView,
            >(nodes_views(v@)),
            Result::Err(e) => spec_decode_wrapped(*nka, dict@, key@, fuel as int)
                == Result::Err::<Seq<NodeView>, NsErrorView>(e@),
        },
    decreases fuel, 1int, 0int,
{
    let holder = match nka.field(dict, key) {
        Ok(NsValue::Dict(hd)) => hd,
        Ok(_) => {
            return Err(NsArchiveError::TypeMismatch);
        },
        Err(e) => {
            return Err(e);
        },
    };
    match nka.field(holder, "NS.objects") {
        Ok(NsValue::Array(items)) => decode_items(nka, items, fuel),
        Ok(_) => Err(NsArchiveError::TypeMismatch),
        Err(e) => Err(e),
    }
}

impl SilicaGroup {
    /// Decodes a group record; `fuel` bounds the reference depth of the
    /// subtree.
    pub fn decode(nka: &NsKeyedArchive, val: &NsValue, fuel: usize) -> (r: Result<
        SilicaGroup,
        NsArchiveError,
    >)
        ensures
            match r {
                Result::Ok(g) => spec_decode_group(*nka, *val, fuel as int) == Result::Ok::<
                    GroupView,
                    NsErrorView,
                >(g@),
                Result::Err(e) => spec_decode_group(*nka, *val, fuel as int) == Result::Err::<
                    GroupView,
                    NsErrorView,
                >(e@),
            },
        decreases fuel, 2int, 0int,
    {
        let d = match as_dict(nka, val) {
            Ok(d) => d,
            Err(e) => {
                return Err(e);
            },
        };
        let hidden = match nka.decode_bool(d, "isHidden") {
            Ok(v) => v,
            Err(e) => {
                return Err(e);
            },
        };
        let name = match nka.decode_text(d, "name") {
            Ok(v) => v,
            Err(e) => {
                return Err(e);
            },
        };
        let children = match decode_wrapped(nka, d, "children", fuel) {
            Ok(v) => v,
            Err(e) => {
                return Err(e);
            },
        };
        let g = SilicaGroup { hidden, children, name };
        proof {
            assert(g@.children =~= nodes_views(g.children@));
        }
        Ok(g)
    }
}

/// A subtree with every layer's pixel buffer assembled.
pub open spec fn spec_load_node(
    n: NodeView,
    meta: TilingMeta,
    entries: Seq<ArchiveEntry>,
) -> Result<NodeView, NsErrorView>
    decreases n, 0int,
{
    match n {
        NodeView::Layer(l) => match spec_load_layer(l, meta, entries) {
            Result::Err(e) => Result::Err(e),
            Result::Ok(l2) => Result::Ok(NodeView::Layer(l2)),
        },
        NodeView::Group(g) => match spec_load_nodes(g.children, meta, entries) {
            Result::Err(e) => Result::Err(e),
            Result::Ok(cs) => Result::Ok(
                NodeView::Group(GroupView { hidden: g.hidden, children: cs, name: g.name }),
            ),
        },
    }
}

/// A child list with every layer's pixel buffer assembled, in order.
pub open spec fn spec_load_nodes(
    s: Seq<NodeView>,
    meta: TilingMeta,
    entries: Seq<ArchiveEntry>,
) -> Result<Seq<NodeView>, NsErrorView>
    decreases s, 1int,
{
    if s.len() == 0 {
        Result::Ok(Seq::empty())
    } else {
        match spec_load_node(s[0], meta, entries) {
            Result::Err(e) => Result::Err(e),
            Result::Ok(nv) => match spec_load_nodes(s.subrange(1, s.len() as int), meta, entries) {
                Result::Err(e) => Result::Err(e),
                Result::Ok(rest) => Result::Ok(seq![nv] + rest),
            },
        }
    }
}

/// Nesting depth of a subtree, the measure that bounds the assembly
/// recursion.
pub open spec fn node_depth(n: NodeView) -> nat
    decreases n, 0int,
{
    match n {
        NodeView::Layer(l) => 0nat,
        NodeView::Group(g) => 1 + nodes_depth(g.children),
    }
}

/// Greatest nesting depth among a child list.
pub open spec fn nodes_depth(s: Seq<NodeView>) -> nat
    decreases s, 1int,
{
    if s.len() == 0 {
        0nat
    } else {
        let hd = node_depth(s[0]);
        let tl = nodes_depth(s.subrange(1, s.len() as int));
        if hd >= tl {
            hd
        } else {
            tl
        }
    }
}

/// Every node of a list is at most as deep as the list.
pub proof fn lemma_nodes_depth_bound(s: Seq<NodeView>, i: int)
    requires
        0 <= i < s.len(),
    ensures
        node_depth(s[i]) <= nodes_depth(s),
    decreases s.len(),
{
    if i > 0 {
        lemma_nodes_depth_bound(s.subrange(1, s.len() as int), i - 1);
        assert(s.subrange(1, s.len() as int)[i - 1] == s[i]);
    }
}

/// Assembles every layer of one subtree.
pub fn load_node(node: SilicaLayers, meta: &TilingMeta, entries: &Vec<ArchiveEntry>) -> (r: Result<
    SilicaLayers,
    NsArchiveError,
>)
    requires
        meta_ok(*meta),
    ensures
        match r {
            Result::Ok(n2) => spec_load_node(node@, *meta, entries@) == Result::Ok::<
                NodeView,
                NsErrorView,
            >(n2@) && node_ready(n2@),
            Result::Err(e) => spec_load_node(node@, *meta, entries@) == Result::Err::<
                NodeView,
                NsErrorView,
            >(e@),
        },
    decreases node_depth(node@), 0int,
{
    let ghost n0 = node;
    match node {
        SilicaLayers::Layer(mut l) => {
            let ghost l0 = l;
            proof {
                assert(n0@ == NodeView::Layer(l0@));
            }
            match l.load_image(meta, entries) {
                Ok(u) => Ok(SilicaLayers::Layer(l)),
                Err(e) => Err(e),
            }
        },
        SilicaLayers::Group(g) => {
            let ghost g0 = g;
            proof {
                assert(n0@ == NodeView::Group(g0@));
                assert(nodes_views(g0.children@) =~= g0@.children);
            }
            let SilicaGroup { hidden, children, name } = g;
            match load_nodes(children, meta, entries) {
                Ok(cs) => {
                    let g2 = SilicaGroup { hidden, children: cs, name };
                    proof {
                        assert(g2@.children =~= nodes_views(g2.children@));
                        assert forall|k: int| 0 <= k < g2@.children.len() implies node_ready(
                            #[trigger] g2@.children[k]) by {
                            assert(g2@.children[k] == node_view(g2.children@[k]));
                        }
                        assert(spec_load_node(n0@, *meta, entries@) matches Result::Ok(nv)
                            && nv == NodeView::Group(g2@));
                    }
                    Ok(SilicaLayers::Group(g2))
                },
                Err(e) => Err(e),
            }
        },
    }
}

/// Assembles every layer of a child list, in order.
pub fn load_nodes(
    nodes: Vec<SilicaLayers>,
    meta: &TilingMeta,
    entries: &Vec<ArchiveEntry>,
) -> (r: Result<Vec<SilicaLayers>, NsArchiveError>)
    requires
        meta_ok(*meta),
    ensures
        match r {
            Result::Ok(v) => spec_load_nodes(nodes_views(nodes@), *meta, entries@)
                == Result::Ok::<Seq<NodeView>, NsErrorView>(nodes_views(v@)) && (forall|k: int|
                0 <= k < v@.len() ==> node_ready(node_view(#[trigger] v@[k]))),
            Result::Err(e) => spec_load_nodes(nodes_views(nodes@), *meta, entries@)
                == Result::Err::<Seq<NodeView>, NsErrorView>(e@),
        },
    decreases nodes_depth(nodes_views(nodes@)), 1int, nodes@.len(),
{
    let ghost views0 = nodes_views(nodes@);
    let mut rest = nodes;
    if rest.len() == 0 {
        proof {
            assert(nodes_views(rest@) =~= Seq::<NodeView>::empty());
        }
        return Ok(rest);
    }
    let head = rest.remove(0);
    proof {
        assert(nodes_views(rest@) =~= views0.subrange(1, views0.len() as int));
        assert(head@ == views0[0]);
        lemma_nodes_depth_bound(views0, 0);
    }
    let loaded = match load_node(head, meta, entries) {
        Ok(n2) => n2,
        Err(e) => {
            return Err(e);
        },
    };
    let mut tail = match load_nodes(rest, meta, entries) {
        Ok(v) => v,
        Err(e) => {
            return Err(e);
        },
    };
    let ghost tail0 = tail@;
    tail.insert(0, loaded);
    proof {
        assert(nodes_views(tail@) =~= seq![loaded@] + nodes_views(tail0));
        assert forall|k: int| 0 <= k < tail@.len() implies node_ready(node_view(
            #[trigger] tail@[k])) by {
            if k > 0 {
                assert(tail@[k] == tail0[k - 1]);
            }
        }
    }
    Ok(tail)
}

/// Reference-depth budget for decoding the layer tree: every group of a
/// keyed archive is reached through a reference into the object table, so
/// the table's length bounds the nesting depth.
pub open spec fn spec_root_fuel(nka: NsKeyedArchive) -> int {
    if nka.objects@.len() < usize::MAX {
        nka.objects@.len() as int + 1
    } else {
        usize::MAX as int
    }
}

/// Mirror of document construction: decode the tree, derive the grid,
/// assemble the thumbnail and every layer, wrap the top-level children in a
/// synthetic never-hidden root group.
pub open spec fn spec_from_ns(nka: NsKeyedArchive, entries: Seq<ArchiveEntry>) -> Result<
    FileView,
    NsErrorView,
> {
    match spec_decode_dict(nka, nka.top@, "root"@) {
        Result::Err(e) => Result::Err(e),
        Result::Ok(root) => match spec_decode_wrapped(nka, root, "unwrappedLayers"@,
        spec_root_fuel(nka)) {
            Result::Err(e) => Result::Err(e),
            Result::Ok(children) => match spec_decode_size(nka, root, "size"@) {
                Result::Err(e) => Result::Err(e),
                Result::Ok(size) => match spec_decode_u32(nka, root, "tileSize"@) {
                    Result::Err(e) => Result::Err(e),
                    Result::Ok(ts) => if ts == 0 {
                        Result::Err(NsErrorView::TypeMismatch)
                    } else {
                        let meta = spec_meta(size, ts);
                        match spec_field(nka, root, "composite"@) {
                            Result::Err(e) => Result::Err(e),
                            Result::Ok(cval) => match spec_decode_layer(nka, cval) {
                                Result::Err(e) => Result::Err(e),
                                Result::Ok(comp) => match spec_load_layer(comp, meta, entries) {
                                    Result::Err(e) => Result::Err(e),
                                    Result::Ok(comp2) => match spec_load_nodes(children, meta,
                                    entries) {
                                        Result::Err(e) => Result::Err(e),
                                        Result::Ok(children2) => match spec_decode_opt_text(nka,
                                        root, "authorName"@) {
                                            Result::Err(e) => Result::Err(e),
                                            Result::Ok(author) => Result::Ok(
                                                FileView {
                                                    author_name: author,
                                                    composite: comp2,
                                                    size,
                                                    layers: GroupView {
                                                        hidden: false,
                                                        children: children2,
                                                        name: "ROOT"@,
                                                    },
                                                },
                                            ),
                                        },
                                    },
                                },
                            },
                        }
                    },
                },
            },
        },
    }
}

impl ProcreateFile {
    /// Builds the document from the decoded keyed archive and the raw
    /// container entries: decodes the layer tree, derives the tiling grid,
    /// assembles the thumbnail layer and every layer of the tree, and wraps
    /// the top-level children in a synthetic, never-hidden root group. Any
    /// failure aborts construction; no partial document is produced.
    pub fn from_ns(nka: &NsKeyedArchive, entries: &Vec<ArchiveEntry>) -> (r: Result<
        ProcreateFile,
        NsArchiveError,
    >)
        ensures
            match r {
                Result::Ok(f) => spec_from_ns(*nka, entries@) == Result::Ok::<
                    FileView,
                    NsErrorView,
                >(f@) && group_ready(f@.layers),
                Result::Err(e) => spec_from_ns(*nka, entries@) == Result::Err::<
                    FileView,
                    NsErrorView,
                >(e@),
            },
    {
        let root = match nka.decode_dict(&nka.top, "root") {
            Ok(d) => d,
            Err(e) => {
                return Err(e);
            },
        };
        let fuel: usize = if nka.objects.len() < usize::MAX {
            nka.objects.len() + 1
        } else {
            usize::MAX
        };
        let layer_vec = match decode_wrapped(nka, root, "unwrappedLayers", fuel) {
            Ok(v) => v,
            Err(e) => {
                return Err(e);
            },
        };
        let size = match decode_size(nka, root, "size") {
            Ok(v) => v,
            Err(e) => {
                return Err(e);
            },
        };
        let tile_size = match nka.decode_u32(root, "tileSize") {
            Ok(v) => v,
            Err(e) => {
                return Err(e);
            },
        };
        let meta = match TilingMeta::compute(size, tile_size) {
            Ok(m) => m,
            Err(e) => {
                return Err(e);
            },
        };
        let cval = match nka.field(root, "composite") {
            Ok(v) => v,
            Err(e) => {
                return Err(e);
            },
        };
        let mut composite = match SilicaLayer::decode(nka, cval) {
            Ok(l) => l,
            Err(e) => {
                return Err(e);
            },
        };
        match composite.load_image(&meta, entries) {
            Ok(u) => {},
            Err(e) => {
                return Err(e);
            },
        }
        let children = match load_nodes(layer_vec, &meta, entries) {
            Ok(v) => v,
            Err(e) => {
                return Err(e);
            },
        };
        let author_name = match nka.decode_opt_text(root, "authorName") {
            Ok(v) => v,
            Err(e) => {
                return Err(e);
            },
        };
        let f = ProcreateFile {
            author_name,
            composite,
            size,
            layers: SilicaGroup { hidden: false, children, name: "ROOT".to_owned() },
        };
        proof {
            assert(f.layers@.children =~= nodes_views(f.layers.children@));
            let sv = spec_from_ns(*nka, entries@);
            assert(sv matches Result::Ok(fv) && f@ =~= fv);
            assert forall|k: int| 0 <= k < f.layers@.children.len() implies node_ready(
                #[trigger] f.layers@.children[k]) by {
                assert(f.layers@.children[k] == node_view(f.layers.children@[k]));
            }
        }
        Ok(f)
    }
}

impl SilicaLayers {
    /// Decodes one tree node, dispatching on its class tag; an unrecognized
    /// tag is a type mismatch.
    pub fn decode(nka: &NsKeyedArchive, val: &NsValue, fuel: usize) -> (r: Result<
        SilicaLayers,
        NsArchiveError,
    >)
        ensures
            match r {
                Result::Ok(nd) => spec_decode_node(*nka, *val, fuel as int) == Result::Ok::<
                    NodeView,
                    NsErrorView,
                >(nd@),
                Result::Err(e) => spec_decode_node(*nka, *val, fuel as int) == Result::Err::<
                    NodeView,
                    NsErrorView,
                >(e@),
            },
        decreases fuel, 3int, 0int,
    {
        let d = match as_dict(nka, val) {
            Ok(d) => d,
            Err(e) => {
                return Err(e);
            },
        };
        let cls = match nka.class_name(d) {
            Ok(c) => c,
            Err(e) => {
                return Err(e);
            },
        };
        if str_eq(cls.as_str(), "SilicaGroup") {
            match SilicaGroup::decode(nka, val, fuel) {
                Ok(g) => Ok(SilicaLayers::Group(g)),
                Err(e) => Err(e),
            }
        } else if str_eq(cls.as_str(), "SilicaLayer") {
            match SilicaLayer::decode(nka, val) {
                Ok(l) => Ok(SilicaLayers::Layer(l)),
                Err(e) => Err(e),
            }
        } else {
            Err(NsArchiveError::TypeMismatch)
        }
    }
}

} // verus!
