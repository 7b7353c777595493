use std::collections::HashMap;

use egui_probe::codegen::{
    DataDecl, DeriveError, FieldAttributes, FieldDecl, FieldProbe, FieldProbeKind,
    InnerPlan, ProbePlan, RenameCase, TagsKind, TypeAttributes, TypeDecl, VariantDecl,
};
use egui_probe::widget::HEIGHT_EPSILON;
use egui_probe::{
    element_label, option_probe_with, probe_fn, remove_deleted, select_variant, CharBuffer,
    DeleteMe, HashMapProbe, NodeId, ProbeHeader, ProbeLayout, ProbeStore, Style, VariantsStyle,
};

fn field(ident: &str, skip: bool, name: Option<&str>, kind: Option<FieldProbeKind>) -> FieldDecl {
    FieldDecl {
        ident: Some(ident.to_string()),
        attributes: FieldAttributes {
            skip,
            name: name.map(|n| n.to_string()),
            kind,
        },
    }
}

fn plain(ident: &str) -> FieldDecl {
    field(ident, false, None, None)
}

fn struct_decl(fields: Vec<FieldDecl>, transparent: bool) -> TypeDecl {
    TypeDecl {
        attributes: TypeAttributes {
            rename_all: None,
            transparent,
            tags: None,
        },
        data: DataDecl::Struct(fields),
    }
}

fn records(plan: &ProbePlan) -> (Vec<String>, Vec<FieldProbe>) {
    match plan {
        ProbePlan::Struct(InnerPlan::Records(names, probes)) => (names.clone(), probes.clone()),
        _ => panic!("expected records"),
    }
}

#[test]
fn test_all_attributes() {
    let type_attributes = struct_decl(vec![plain("a")], false);
    assert!(egui_probe::codegen::derive(&type_attributes).is_ok());

    let fields = vec![
        field("skipped", true, None, None),
        field("a", false, Some("renamed"), None),
        field("b", false, None, Some(FieldProbeKind::With)),
        field("c", false, None, Some(FieldProbeKind::ProbeAs)),
        field("d", false, None, Some(FieldProbeKind::Range)),
        field("e", false, None, Some(FieldProbeKind::Multiline)),
        field("f", false, None, Some(FieldProbeKind::Multiline)),
        field("g", false, None, Some(FieldProbeKind::ToggleSwitch)),
        field("h", false, None, Some(FieldProbeKind::ToggleSwitch)),
        field("i", false, None, Some(FieldProbeKind::Frozen)),
        field("j", false, None, Some(FieldProbeKind::Rgb)),
        field("k", false, None, Some(FieldProbeKind::Rgba)),
        field("l", false, None, Some(FieldProbeKind::RgbaPremultiplied)),
        field("m", false, None, Some(FieldProbeKind::RgbaUnmultiplied)),
    ];
    let field_attributes = TypeDecl {
        attributes: TypeAttributes {
            rename_all: Some(RenameCase::TrainCase),
            transparent: false,
            tags: None,
        },
        data: DataDecl::Struct(fields),
    };
    let plan = egui_probe::codegen::derive(&field_attributes).unwrap();
    let (names, probes) = records(&plan);
    assert_eq!(names.len(), 13);
    assert_eq!(names[0], "renamed");
    assert_eq!(names[1], "B");
    assert_eq!(names[12], "M");
    assert_eq!(probes[0], FieldProbe { index: 1, kind: None });
    assert_eq!(
        probes[2],
        FieldProbe {
            index: 3,
            kind: Some(FieldProbeKind::ProbeAs)
        }
    );

    let enum_attributes = TypeDecl {
        attributes: TypeAttributes {
            rename_all: None,
            transparent: false,
            tags: Some(TagsKind::ComboBox),
        },
        data: DataDecl::Enum(vec![
            VariantDecl {
                ident: "A".to_string(),
                name: Some("renamed".to_string()),
                transparent: false,
                fields: vec![],
            },
            VariantDecl {
                ident: "B".to_string(),
                name: None,
                transparent: true,
                fields: vec![field("skipped", true, None, None), plain("b")],
            },
        ]),
    };
    match egui_probe::codegen::derive(&enum_attributes).unwrap() {
        ProbePlan::Enum(style, variants) => {
            assert_eq!(style, Some(VariantsStyle::ComboBox));
            assert_eq!(variants.len(), 2);
            assert_eq!(variants[0].name, "renamed");
            assert_eq!(variants[1].name, "B");
            match &variants[1].inner {
                InnerPlan::Transparent(p) => assert_eq!(*p, FieldProbe { index: 1, kind: None }),
                _ => panic!("expected a transparent variant"),
            }
        }
        _ => panic!("expected an enum plan"),
    }
}

#[test]
fn identity_is_stable_across_passes() {
    let root = NodeId::root();
    let first = root.child(0).child(2);
    let again = NodeId::root().child(0).child(2);
    assert!(first.same(&again));
    assert!(!root.child(0).same(&root.child(1)));
    assert!(!root.child(1).child(0).same(&root.child(0).child(1)));
}

#[test]
fn toggle_is_seen_next_frame() {
    let mut store = ProbeStore::new();
    let id = NodeId::root().child(3);

    let mut header = ProbeHeader::load(&store, id.duplicate(), 0);
    assert!(!header.is_open());
    header.collapse_clicked(true);
    assert!(header.is_open());
    // still frame N: the store has not been written
    assert!(!store.header(&id).open);
    header.store(&mut store);
    assert!(store.take_repaint());

    // frame N+1
    let header = ProbeHeader::load(&store, id.duplicate(), 1000);
    assert!(header.is_open());
    assert!(store.header(&id).open);
}

#[test]
fn untouched_header_writes_nothing() {
    let mut store = ProbeStore::new();
    let id = NodeId::root();
    let mut header = ProbeHeader::load(&store, id.duplicate(), 0);
    header.collapse_clicked(false);
    header.set_has_inner(false);
    header.store(&mut store);
    assert!(!store.take_repaint());
    let s = store.header(&id);
    assert!(!s.has_inner && !s.open && s.body_height == 0);
}

#[test]
fn label_column_converges() {
    let mut store = ProbeStore::new();
    let id = NodeId::root();
    let widths = [3000u32, 10000, 5000];

    let mut layout = ProbeLayout::load(&store, id.duplicate());
    assert_eq!(layout.labels_width(), 0);
    for w in widths {
        layout.bump_labels_width(w);
    }
    layout.store(&mut store);
    assert!(store.take_repaint());
    assert_eq!(store.layout(&id).labels_width, 10000);

    let mut layout = ProbeLayout::load(&store, id.duplicate());
    assert_eq!(layout.labels_width(), 10000);
    for w in widths {
        layout.bump_labels_width(w);
    }
    layout.store(&mut store);
    assert!(!store.take_repaint());
    assert_eq!(store.layout(&id).labels_width, 10000);
}

#[test]
fn label_column_shrinks_one_pass_late() {
    let mut store = ProbeStore::new();
    let id = NodeId::root();
    let mut layout = ProbeLayout::load(&store, id.duplicate());
    layout.bump_labels_width(8000);
    layout.store(&mut store);
    let mut layout = ProbeLayout::load(&store, id.duplicate());
    layout.bump_labels_width(2000);
    assert_eq!(layout.labels_width(), 8000);
    layout.store(&mut store);
    assert_eq!(store.layout(&id).labels_width, 2000);
}

#[test]
fn body_height_and_shift() {
    let store = ProbeStore::new();
    let mut header = ProbeHeader::load(&store, NodeId::root(), 250);
    assert!(header.shows_body());
    header.set_body_height(4000);
    assert_eq!(header.body_height(), 4000);
    assert_eq!(header.body_shift(), 3000);
    header.set_body_height(4000 + HEIGHT_EPSILON);
    assert_eq!(header.body_height(), 4000);
    header.set_body_height(4002);
    assert_eq!(header.body_height(), 4002);

    let closed = ProbeHeader::load(&store, NodeId::root(), 0);
    assert!(!closed.shows_body());
    assert_eq!(closed.body_shift(), 0);
}

#[test]
fn duplicate_key_is_rejected() {
    let mut map: HashMap<String, i32> = HashMap::new();
    map.insert("foo".to_string(), 7);
    let mut probe = HashMapProbe::load(None);

    probe.state.new_key = "foo".to_string();
    let inserted = probe.add_key(&mut map, Some("foo".to_string()), 0);
    assert!(!inserted);
    assert_eq!(map.len(), 1);
    assert!(probe.state.error());
    assert_eq!(probe.state.new_key, "foo");

    probe.state.new_key = "bar".to_string();
    probe.new_key_edited(true);
    assert!(!probe.state.error());
    let inserted = probe.add_key(&mut map, Some("bar".to_string()), i32::default());
    assert!(inserted);
    assert_eq!(map.len(), 2);
    assert_eq!(map["bar"], 0);
    assert_eq!(probe.state.new_key, "");
    assert!(probe.store().is_some());
}

#[test]
fn unparsable_key_is_rejected() {
    let mut map: HashMap<u32, i32> = HashMap::new();
    let mut probe = HashMapProbe::load(None);
    assert!(!probe.add_key(&mut map, None, 0));
    assert!(map.is_empty());
    assert!(probe.state.error());
}

#[test]
fn unchanged_map_probe_is_not_stored() {
    let probe = HashMapProbe::load(None);
    assert!(probe.store().is_none());
}

#[derive(Debug, PartialEq)]
enum Shape {
    Circle { radius: u32 },
    Square { side: u32, filled: bool },
}

#[test]
fn variant_switch_resets_payload() {
    let mut value = Shape::Circle { radius: 42 };
    let changed = select_variant(&mut value, false, true, Shape::Square { side: 0, filled: false });
    assert!(changed);
    assert_eq!(value, Shape::Square { side: 0, filled: false });

    let mut value = Shape::Square { side: 9, filled: true };
    let changed = select_variant(&mut value, true, true, Shape::Square { side: 0, filled: false });
    assert!(!changed);
    assert_eq!(value, Shape::Square { side: 9, filled: true });
}

#[test]
fn transparent_wrapper_adds_no_record() {
    let decl = struct_decl(vec![field("skipped", true, None, None), plain("inner")], true);
    match egui_probe::codegen::derive(&decl).unwrap() {
        ProbePlan::Struct(InnerPlan::Transparent(p)) => {
            assert_eq!(p, FieldProbe { index: 1, kind: None })
        }
        _ => panic!("expected a transparent plan"),
    }
}

#[test]
fn derive_errors() {
    let named_skip = struct_decl(vec![field("a", true, Some("x"), None)], false);
    assert_eq!(egui_probe::codegen::derive(&named_skip).err(), Some(DeriveError::NamedSkippedField));

    let kind_skip = struct_decl(vec![plain("a"), field("b", true, None, Some(FieldProbeKind::Rgb))], false);
    let e = egui_probe::codegen::derive(&kind_skip).err().unwrap();
    assert_eq!(e, DeriveError::SkippedFieldKind(FieldProbeKind::Rgb));
    assert_eq!(e.message(), "Cannot use `rgb` attribute for skipped field");

    let two = struct_decl(vec![plain("a"), plain("b")], true);
    assert_eq!(egui_probe::codegen::derive(&two).err(), Some(DeriveError::TransparentStruct));
    let none = struct_decl(vec![field("a", true, None, None)], true);
    assert_eq!(egui_probe::codegen::derive(&none).err(), Some(DeriveError::TransparentStruct));

    let tagged = TypeDecl {
        attributes: TypeAttributes {
            rename_all: None,
            transparent: false,
            tags: Some(TagsKind::Inlined),
        },
        data: DataDecl::Struct(vec![]),
    };
    assert_eq!(egui_probe::codegen::derive(&tagged).err(), Some(DeriveError::TagsOnStruct));
    assert_eq!(
        DeriveError::TagsOnStruct.message(),
        "Tags may be specified only for enums"
    );

    let enum_decl = TypeDecl {
        attributes: TypeAttributes {
            rename_all: None,
            transparent: false,
            tags: None,
        },
        data: DataDecl::Enum(vec![
            VariantDecl {
                ident: "A".to_string(),
                name: None,
                transparent: false,
                fields: vec![field("a", true, Some("x"), None)],
            },
            VariantDecl {
                ident: "B".to_string(),
                name: None,
                transparent: true,
                fields: vec![],
            },
        ]),
    };
    // transparent variants are checked before the fields of other variants
    assert_eq!(egui_probe::codegen::derive(&enum_decl).err(), Some(DeriveError::TransparentVariant));

    let union = TypeDecl {
        attributes: TypeAttributes {
            rename_all: None,
            transparent: false,
            tags: None,
        },
        data: DataDecl::Union,
    };
    assert_eq!(egui_probe::codegen::derive(&union).err(), Some(DeriveError::Union));
}

#[test]
fn error_when_skipped_messages() {
    assert_eq!(
        FieldProbeKind::With.error_when_skipped(),
        "Cannot use `with` attribute for skipped field"
    );
    assert_eq!(
        FieldProbeKind::RgbaUnmultiplied.error_when_skipped(),
        "Cannot use `rgba_unmultiplied` attribute for skipped field"
    );
}

#[test]
fn rename_converts_case() {
    assert_eq!(RenameCase::CamelCase.rename("my_field"), "myField");
    assert_eq!(RenameCase::PascalCase.rename("my_field"), "MyField");
    assert_eq!(RenameCase::KebabCase.rename("my_field"), "my-field");
    assert_eq!(RenameCase::TrainCase.rename("my_field"), "My-Field");
    assert_eq!(RenameCase::ScreamingSnakeCase.rename("myField"), "MY_FIELD");
    assert_eq!(RenameCase::SnakeCase.rename("MyField"), "my_field");
}

#[test]
fn removes_deleted_elements() {
    let mut items = vec![10, 20, 30, 40];
    remove_deleted(&mut items, &vec![false, true, false, true]);
    assert_eq!(items, vec![10, 30]);

    let mut empty: Vec<u8> = vec![];
    remove_deleted(&mut empty, &vec![]);
    assert!(empty.is_empty());
}

#[test]
fn delete_me_marks_on_click() {
    let mut value = 5u8;
    let mut item = DeleteMe {
        value: &mut value,
        delete: false,
    };
    item.remove_clicked(false);
    assert!(!item.delete);
    item.remove_clicked(true);
    assert!(item.delete);
}

#[test]
fn element_labels() {
    assert_eq!(element_label(0), "[0]");
    assert_eq!(element_label(12), "[12]");
}

#[test]
fn option_selector() {
    let mut value: Option<u32> = None;
    assert!(option_probe_with(&mut value, false, true, || 7));
    assert_eq!(value, Some(7));
    assert!(!option_probe_with(&mut value, false, false, || 1));
    assert_eq!(value, Some(7));
    assert!(option_probe_with(&mut value, true, false, || 1));
    assert_eq!(value, None);
    assert!(option_probe_with(&mut value, true, true, || 3));
    assert_eq!(value, Some(3));
}

#[test]
fn char_buffer_encodes() {
    let b = CharBuffer::new('é');
    assert_eq!(b.len_utf8(), 2);
    assert_eq!((b.byte(0), b.byte(1)), (0xC3, 0xA9));
    let mut b = CharBuffer::new('a');
    assert_eq!(b.insert_text("€x", 1), 1);
    assert_eq!(b.ch(), '€');
    assert_eq!(b.len_utf8(), 3);
    assert_eq!((b.byte(0), b.byte(1), b.byte(2)), (0xE2, 0x82, 0xAC));
    assert_eq!(b.insert_text("z", 2), 0);
    assert_eq!(b.insert_text("", 0), 0);
    assert_eq!(b.ch(), '€');
    let b = CharBuffer::new('😀');
    assert_eq!(b.len_utf8(), 4);
    assert_eq!(b.byte(0), 0xF0);
}

#[test]
fn button_texts() {
    let style = Style::default();
    assert_eq!(style.add_button_text(), "+");
    assert_eq!(style.remove_button_text(), "-");
    let style = Style {
        add_button_char: Some('＋'),
        remove_button_char: Some('x'),
        ..Style::default()
    };
    assert_eq!(style.add_button_text(), "＋");
    assert_eq!(style.remove_button_text(), "x");
    assert_eq!(style.variants, VariantsStyle::ComboBox);
}

#[test]
fn probe_fn_wraps() {
    let f = probe_fn(|x: u32| x + 1);
    assert_eq!((f.0)(1), 2);
}
