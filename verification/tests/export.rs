use vm_rust::export::{encode_png, Bitmap};
use vm_rust::cast_member::{ButtonMember, ButtonType, FieldMember, FlashMember, PaletteMember, ShapeInfo, ShapeMember, ShapeType};
use vm_rust::export::{
    binary_file, build_button_yml, build_field_yml, build_flash_yml, build_shape_yml, encode_act, fill_mode_name, member_file_stem,
    member_yml_header, rgb_hex, sanitize_filename, shape_type_name, text_file, yaml_string, FileContent, Section,
};

#[test]
fn sanitize_replaces_reserved_characters_and_trims() {
    assert_eq!(sanitize_filename("a/b:c*d"), "a_b_c_d");
    assert_eq!(sanitize_filename(" .name. "), "name");
    assert_eq!(sanitize_filename("..."), "");
    assert_eq!(sanitize_filename(sanitize_filename(" x<y> ").as_str()), sanitize_filename(" x<y> "));
}

#[test]
fn yaml_strings() {
    assert_eq!(yaml_string("plain"), "plain");
    assert_eq!(yaml_string(""), "\"\"");
    assert_eq!(yaml_string("a: b"), "\"a: b\"");
    assert_eq!(yaml_string("1st"), "\"1st\"");
    assert_eq!(yaml_string("true"), "\"true\"");
    assert_eq!(yaml_string("say \"hi\""), "\"say \\\"hi\\\"\"");
    assert_eq!(yaml_string("back\\slash#"), "\"back\\\\slash#\"");
}

#[test]
fn colors_and_modes() {
    assert_eq!(rgb_hex((255, 0, 171)), "\"#ff00ab\"");
    assert_eq!(fill_mode_name(1), "solid");
    assert_eq!(fill_mode_name(2), "gradient");
    assert_eq!(fill_mode_name(7), "none");
    assert_eq!(shape_type_name(&ShapeType::OvalRect), "ovalRect");
    assert_eq!(shape_type_name(&ShapeType::Unknown), "rect");
}

#[test]
fn act_is_768_bytes() {
    let mut p = PaletteMember::new();
    p.colors[0] = (1, 2, 3);
    p.colors[255] = (7, 8, 9);
    let act = encode_act(&p);
    assert_eq!(act.len(), 768);
    assert_eq!(&act[0..3], &[1, 2, 3]);
    assert_eq!(&act[765..768], &[7, 8, 9]);
    let short = PaletteMember { colors: vec![(4, 5, 6)] };
    let act = encode_act(&short);
    assert_eq!(&act[0..4], &[4, 5, 6, 0]);
    assert_eq!(act.len(), 768);
}

#[test]
fn sections() {
    let mut s = Section::new("font");
    assert_eq!(s.build(), "");
    s.push("size: 12".to_string());
    s.push("name: x".to_string());
    assert_eq!(s.build(), "font:\n  size: 12\n  name: x\n");
}

#[test]
fn member_header_and_stem() {
    assert_eq!(member_yml_header(3, "logo", ""), "slot: 3\n");
    assert_eq!(member_yml_header(3, "a/b", "note"), "slot: 3\nname: a/b\ncomments: note\n");
    assert_eq!(member_file_stem(3, "a/b"), "a_b");
    assert_eq!(member_file_stem(12, ""), "member_12");
}

#[test]
fn field_and_button_yml() {
    let f = FieldMember::new();
    let yml = build_field_yml("slot: 1\n", &f);
    assert!(yml.starts_with("slot: 1\ntype: field\n\nfield:\n  box_type: adjust\n  word_wrap: true\n"));
    assert!(yml.ends_with("font:\n  name: Arial\n  style: plain\n  size: 12\n  alignment: left\n  fixed_line_space: 0\n"));
    let b = ButtonMember {
        field: FieldMember::new(),
        button_type: ButtonType::CheckBox,
        hilite: false,
        script_id: 0,
        member_script_ref: None,
    };
    let yml = build_button_yml("", &b);
    assert!(yml.starts_with("type: button\n\nbutton:\n  button_type: checkBox\n  width: 100\n"));
    let flash = FlashMember { data: vec![], reg_point: (-3, 4), flash_info: None };
    assert_eq!(build_flash_yml("", &flash), "type: flash\n\nflash:\n  reg_point: [-3, 4]\n");
}

#[test]
fn file_helpers() {
    let t = text_file("a.txt".to_string(), "x".to_string());
    assert_eq!(t.path, "a.txt");
    assert!(matches!(t.content, FileContent::Text(ref c) if c == "x"));
    let b = binary_file("a.bin".to_string(), vec![1, 2]);
    assert!(matches!(b.content, FileContent::Binary(ref d) if d == &vec![1u8, 2]));
}

#[test]
fn bitmaps_export_as_png() {
    let indexed = Bitmap { width: 2, height: 1, bit_depth: 8, data: vec![0, 255] };
    let png = encode_png(&indexed).expect("a 2x1 bitmap encodes");
    assert_eq!(&png[0..8], &[0x89, b'P', b'N', b'G', 0x0d, 0x0a, 0x1a, 0x0a]);
    let empty = Bitmap { width: 2, height: 1, bit_depth: 8, data: vec![] };
    assert!(encode_png(&empty).is_none());
    // 32-bit pixels are taken as RGBA; too few bytes for the size give no file.
    let short = Bitmap { width: 2, height: 2, bit_depth: 32, data: vec![1, 2, 3, 4] };
    assert!(encode_png(&short).is_none());
    let rgba = Bitmap { width: 1, height: 1, bit_depth: 32, data: vec![1, 2, 3, 4] };
    assert!(encode_png(&rgba).is_some());
}

#[test]
fn shape_yml() {
    let sm = ShapeMember {
        shape_info: ShapeInfo {
            shape_type: ShapeType::Oval,
            rect_top: 1,
            rect_left: 2,
            rect_bottom: 30,
            rect_right: 40,
            pattern: 5,
            fore_color: 255,
            back_color: 0,
            fill_type: 1,
            line_thickness: 2,
            line_direction: 0,
        },
        script_id: 0,
        member_script_ref: None,
    };
    assert_eq!(
        build_shape_yml("slot: 2\n", &sm),
        "slot: 2\ntype: shape\n\nshape:\n  shape_type: oval\n  rect: [2, 1, 40, 30]\n  pattern: 5\n  fore_color: 255\n  back_color: 0\n  fill_type: 1\n  line_thickness: 2\n  line_direction: 0\n"
    );
}
