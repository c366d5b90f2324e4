use silica::document::{ProcreateFile, SilicaLayers};
use silica::error::NsArchiveError;
use silica::ns_archive::{NsKeyedArchive, NsValue};

fn layer_dict(uuid: &str) -> Vec<(String, NsValue)> {
    vec![
        ("blend".to_string(), NsValue::Integer(0)),
        ("clipped".to_string(), NsValue::Boolean(false)),
        ("hidden".to_string(), NsValue::Boolean(false)),
        ("name".to_string(), NsValue::Null),
        ("opacity".to_string(), NsValue::Real(255)),
        ("UUID".to_string(), NsValue::Text(uuid.to_string())),
        ("version".to_string(), NsValue::Integer(1)),
        ("sizeWidth".to_string(), NsValue::Integer(4)),
        ("sizeHeight".to_string(), NsValue::Integer(4)),
    ]
}

fn minimal_archive(skip: Option<&str>) -> NsKeyedArchive {
    let mut root_fields = vec![
        ("unwrappedLayers".to_string(), NsValue::Uid(2)),
        ("size".to_string(), NsValue::Text("{4, 4}".to_string())),
        ("tileSize".to_string(), NsValue::Integer(2)),
        ("composite".to_string(), NsValue::Uid(3)),
    ];
    if let Some(k) = skip {
        root_fields.retain(|(key, _)| key != k);
    }
    NsKeyedArchive {
        objects: vec![
            NsValue::Text("$null".to_string()),
            NsValue::Dict(root_fields),
            NsValue::Dict(vec![("NS.objects".to_string(), NsValue::Array(vec![]))]),
            NsValue::Dict(layer_dict("thumb-0001")),
        ],
        top: vec![("root".to_string(), NsValue::Uid(1))],
    }
}

#[test]
fn minimal_root_decodes() {
    let art = ProcreateFile::from_ns(&minimal_archive(None), &Vec::new()).unwrap();
    assert_eq!(art.size.width, 4);
    assert_eq!(art.size.height, 4);
    assert_eq!(art.layers.name, "ROOT");
    assert!(!art.layers.hidden);
    assert_eq!(art.layers.children.len(), 0);
    assert_eq!(art.author_name, None);
    assert_eq!(art.composite.uuid, "thumb-0001");
    // tile assembly ran for the thumbnail: a transparent buffer of its size
    let img = art.composite.image.as_ref().unwrap();
    assert_eq!(img.width, 4);
    assert_eq!(img.height, 4);
    assert!(img.data.iter().all(|b| *b == 0));
}

#[test]
fn missing_required_keys_name_themselves() {
    for key in ["unwrappedLayers", "size", "tileSize", "composite"] {
        let r = ProcreateFile::from_ns(&minimal_archive(Some(key)), &Vec::new());
        match r {
            Err(NsArchiveError::MissingKey(k)) => assert_eq!(k, key),
            other => panic!("expected MissingKey({key}), got {other:?}"),
        }
    }
}

#[test]
fn missing_root_names_root() {
    let mut nka = minimal_archive(None);
    nka.top.clear();
    match ProcreateFile::from_ns(&nka, &Vec::new()) {
        Err(NsArchiveError::MissingKey(k)) => assert_eq!(k, "root"),
        other => panic!("expected MissingKey(root), got {other:?}"),
    }
}

#[test]
fn missing_layer_field_names_itself() {
    let mut nka = minimal_archive(None);
    // drop "blend" from the composite layer record
    match &mut nka.objects[3] {
        NsValue::Dict(fields) => fields.retain(|(k, _)| k != "blend"),
        _ => unreachable!(),
    }
    match ProcreateFile::from_ns(&nka, &Vec::new()) {
        Err(NsArchiveError::MissingKey(k)) => assert_eq!(k, "blend"),
        other => panic!("expected MissingKey(blend), got {other:?}"),
    }
}

#[test]
fn wrong_shape_is_a_type_mismatch() {
    let mut nka = minimal_archive(None);
    match &mut nka.objects[1] {
        NsValue::Dict(fields) => {
            for f in fields.iter_mut() {
                if f.0 == "tileSize" {
                    f.1 = NsValue::Text("two hundred".to_string());
                }
            }
        },
        _ => unreachable!(),
    }
    assert!(matches!(ProcreateFile::from_ns(&nka, &Vec::new()), Err(NsArchiveError::TypeMismatch)));
}

fn archive_with_children(children: Vec<NsValue>, extra: Vec<NsValue>) -> NsKeyedArchive {
    let mut nka = minimal_archive(None);
    nka.objects[2] = NsValue::Dict(vec![(
        "NS.objects".to_string(),
        NsValue::Array(children),
    )]);
    nka.objects.extend(extra);
    nka
}

#[test]
fn polymorphic_decode_dispatches_on_class_tag() {
    let layer_class = NsValue::Dict(vec![(
        "$classname".to_string(),
        NsValue::Text("SilicaLayer".to_string()),
    )]);
    let group_class = NsValue::Dict(vec![(
        "$classname".to_string(),
        NsValue::Text("SilicaGroup".to_string()),
    )]);
    let mut leaf = layer_dict("leaf-0001");
    leaf.push(("$class".to_string(), NsValue::Uid(5)));
    let group = NsValue::Dict(vec![
        ("$class".to_string(), NsValue::Uid(6)),
        ("isHidden".to_string(), NsValue::Boolean(true)),
        ("name".to_string(), NsValue::Text("sketch".to_string())),
        ("children".to_string(), NsValue::Uid(7)),
    ]);
    let inner = NsValue::Dict(vec![("NS.objects".to_string(), NsValue::Array(vec![]))]);
    let nka = archive_with_children(
        vec![NsValue::Uid(4), NsValue::Uid(8)],
        vec![NsValue::Dict(leaf), layer_class, group_class, inner, group],
    );
    let art = ProcreateFile::from_ns(&nka, &Vec::new()).unwrap();
    assert_eq!(art.layers.children.len(), 2);
    match &art.layers.children[0] {
        SilicaLayers::Layer(l) => {
            assert_eq!(l.uuid, "leaf-0001");
            assert_eq!(l.opacity, 255);
            assert!(l.image.is_some());
        },
        other => panic!("expected a layer, got {other:?}"),
    }
    match &art.layers.children[1] {
        SilicaLayers::Group(g) => {
            assert!(g.hidden);
            assert_eq!(g.name, "sketch");
            assert_eq!(g.children.len(), 0);
        },
        other => panic!("expected a group, got {other:?}"),
    }
}

#[test]
fn unknown_class_tag_is_a_type_mismatch() {
    let weird_class = NsValue::Dict(vec![(
        "$classname".to_string(),
        NsValue::Text("SilicaMystery".to_string()),
    )]);
    let mut leaf = layer_dict("leaf-0002");
    leaf.push(("$class".to_string(), NsValue::Uid(5)));
    let nka = archive_with_children(vec![NsValue::Uid(4)], vec![NsValue::Dict(leaf), weird_class]);
    assert!(matches!(ProcreateFile::from_ns(&nka, &Vec::new()), Err(NsArchiveError::TypeMismatch)));
}

#[test]
fn optional_author_name_is_decoded() {
    let mut nka = minimal_archive(None);
    match &mut nka.objects[1] {
        NsValue::Dict(fields) => fields.push((
            "authorName".to_string(),
            NsValue::Text("Gilvana".to_string()),
        )),
        _ => unreachable!(),
    }
    let art = ProcreateFile::from_ns(&nka, &Vec::new()).unwrap();
    assert_eq!(art.author_name.as_deref(), Some("Gilvana"));
}

#[test]
fn null_sentinel_means_absent() {
    let mut nka = minimal_archive(None);
    match &mut nka.objects[1] {
        NsValue::Dict(fields) => fields.push(("authorName".to_string(), NsValue::Uid(0))),
        _ => unreachable!(),
    }
    let art = ProcreateFile::from_ns(&nka, &Vec::new()).unwrap();
    assert_eq!(art.author_name, None);
}

#[test]
fn size_text_without_a_space_decodes_too() {
    let mut nka = minimal_archive(None);
    match &mut nka.objects[1] {
        NsValue::Dict(fields) => {
            for f in fields.iter_mut() {
                if f.0 == "size" {
                    f.1 = NsValue::Text("{7,9}".to_string());
                }
            }
        },
        _ => unreachable!(),
    }
    let art = ProcreateFile::from_ns(&nka, &Vec::new()).unwrap();
    assert_eq!(art.size.width, 7);
    assert_eq!(art.size.height, 9);
}

#[test]
fn dangling_reference_is_a_type_mismatch() {
    let mut nka = minimal_archive(None);
    match &mut nka.objects[1] {
        NsValue::Dict(fields) => {
            for f in fields.iter_mut() {
                if f.0 == "composite" {
                    f.1 = NsValue::Uid(99);
                }
            }
        },
        _ => unreachable!(),
    }
    assert!(matches!(ProcreateFile::from_ns(&nka, &Vec::new()), Err(NsArchiveError::TypeMismatch)));
}
