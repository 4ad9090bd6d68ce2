use std::collections::HashMap;
use vm_rust::cast_member::{ButtonType, FieldInfo, ScriptType, ShapeInfo, ShapeType};
use vm_rust::datum::ColorRef;
use vm_rust::member_def::{cast_member_from_def, MemberDef, MemberInfo, MemberKind, StxtRun};

fn info() -> FieldInfo {
    FieldInfo {
        alignment: "left".to_string(),
        word_wrap: true,
        font_name: "Geneva".to_string(),
        box_type: "adjust".to_string(),
        width: 100,
        height: 30,
        auto_tab: false,
        editable: true,
        bg_color_rgb: (255, 255, 255),
        text_height: 20,
        scroll: 0,
        border: 1,
        margin: 2,
        box_drop_shadow: 0,
        text_shadow: 0,
        rect_left: 0,
        rect_top: 0,
        rect_right: 100,
        rect_bottom: 30,
    }
}

fn member_info(name: &str, script_id: u32) -> MemberInfo {
    MemberInfo { name: name.to_string(), comments: String::new(), script_id }
}

fn fonts() -> HashMap<u16, String> {
    let mut t = HashMap::new();
    t.insert(3u16, "Arial".to_string());
    t
}

#[test]
fn a_field_takes_its_first_runs_font_style_and_color() {
    let run = StxtRun { font_id: 3, font_size: 14, height: 17, style: 5, color_r: 0xff00, color_g: 0x8000, color_b: 0 };
    let def = MemberDef::Text { info: info(), text: "hi".to_string(), first_run: Some(run) };
    let m = cast_member_from_def(2, 7, &member_info("greeting", 12), &def, &fonts(), 0);
    assert_eq!(m.number, 7);
    assert_eq!(m.name, "greeting");
    assert!(matches!(m.bg_color, ColorRef::Rgb(255, 255, 255)));
    match m.kind {
        MemberKind::Field(f) => {
            assert_eq!(f.text, "hi");
            assert_eq!(f.font, "Arial");
            assert_eq!(f.font_style, "bold underline");
            assert_eq!(f.font_size, 14);
            assert_eq!(f.fixed_line_space, 17);
            assert!(matches!(f.fore_color, Some(ColorRef::Rgb(255, 128, 0))));
            assert_eq!(f.height, 20 + 2 + 4);
            assert_eq!(f.script_id, 12);
            assert!(matches!(f.member_script_ref, Some(r) if r.cast_lib == 2 && r.cast_member == 12));
        }
        _ => panic!("expected a field"),
    }
    // An unknown font id keeps the field's font; style bits outside the three give plain.
    let run = StxtRun { font_id: 9, font_size: 0, height: 0, style: 8, color_r: 0, color_g: 0, color_b: 0 };
    let def = MemberDef::Text { info: info(), text: String::new(), first_run: Some(run) };
    match cast_member_from_def(1, 1, &member_info("", 0), &def, &fonts(), 0).kind {
        MemberKind::Field(f) => {
            assert_eq!(f.font, "Geneva");
            assert_eq!(f.font_style, "plain");
            assert_eq!(f.font_size, 12);
            assert!(f.member_script_ref.is_none());
        }
        _ => panic!("expected a field"),
    }
}

#[test]
fn buttons_scripts_shapes_and_palettes() {
    let def = MemberDef::Button { info: info(), type_raw: Some(2), text: Some(("OK".to_string(), None)), script_exists: true };
    match cast_member_from_def(1, 3, &member_info("b", 4), &def, &fonts(), 0).kind {
        MemberKind::Button(b) => {
            assert_eq!(b.button_type, ButtonType::CheckBox);
            assert_eq!(b.field.text, "OK");
            assert_eq!(b.field.height, 30);
            assert_eq!(b.script_id, 4);
            assert!(!b.hilite);
        }
        _ => panic!("expected a button"),
    }
    let def = MemberDef::Button { info: info(), type_raw: None, text: None, script_exists: false };
    assert!(matches!(cast_member_from_def(1, 3, &member_info("b", 0), &def, &fonts(), 0).kind,
        MemberKind::Button(b) if b.button_type == ButtonType::PushButton));
    let def = MemberDef::Script { script_type: ScriptType::Parent, has_script: true };
    assert!(matches!(cast_member_from_def(1, 5, &member_info("p", 5), &def, &fonts(), 0).kind,
        MemberKind::Script(s) if s.script_id == 5 && s.name == "p"));
    let def = MemberDef::Script { script_type: ScriptType::Movie, has_script: false };
    assert!(matches!(cast_member_from_def(1, 5, &member_info("p", 0), &def, &fonts(), 0).kind, MemberKind::Unknown));
    let shape = ShapeInfo {
        shape_type: ShapeType::Oval,
        rect_top: 0,
        rect_left: 0,
        rect_bottom: 5,
        rect_right: 5,
        pattern: 1,
        fore_color: 2,
        back_color: 3,
        fill_type: 1,
        line_thickness: 1,
        line_direction: 0,
    };
    assert!(matches!(cast_member_from_def(1, 6, &member_info("s", 9), &MemberDef::Shape { shape_info: shape }, &fonts(), 0).kind,
        MemberKind::Shape(s) if s.script_id == 9 && s.member_script_ref.is_some()));
    let m = cast_member_from_def(1, 8, &member_info("pal", 0), &MemberDef::Palette { colors: vec![(1, 2, 3)] }, &fonts(), 0);
    assert!(matches!(m.kind, MemberKind::Palette(p) if p.colors == vec![(1, 2, 3)]));
    assert!(matches!(m.color, ColorRef::PaletteIndex(255)));
    assert!(matches!(cast_member_from_def(1, 9, &member_info("x", 0), &MemberDef::Other, &fonts(), 0).kind, MemberKind::Other));
}

fn shape_of(shape_type: ShapeType) -> ShapeInfo {
    ShapeInfo {
        shape_type,
        rect_top: 1,
        rect_left: 2,
        rect_bottom: 3,
        rect_right: 4,
        pattern: 0,
        fore_color: 0,
        back_color: 0,
        fill_type: 0,
        line_thickness: 1,
        line_direction: 0,
    }
}

#[test]
fn flash_members_that_hold_shapes_become_shapes() {
    let recorded = MemberDef::Flash { shape_info: Some(shape_of(ShapeType::Line)), raw_shape: None };
    assert!(matches!(cast_member_from_def(3, 2, &member_info("f", 6), &recorded, &fonts(), 0).kind,
        MemberKind::Shape(s) if matches!(s.shape_info.shape_type, ShapeType::Line) && s.script_id == 6));
    let stored = MemberDef::Flash { shape_info: None, raw_shape: Some(shape_of(ShapeType::OvalRect)) };
    assert!(matches!(cast_member_from_def(3, 2, &member_info("f", 0), &stored, &fonts(), 0).kind,
        MemberKind::Shape(s) if matches!(s.shape_info.shape_type, ShapeType::OvalRect) && s.member_script_ref.is_none()));
    let content = MemberDef::Flash { shape_info: None, raw_shape: Some(shape_of(ShapeType::Unknown)) };
    assert!(matches!(cast_member_from_def(3, 2, &member_info("f", 0), &content, &fonts(), 0).kind, MemberKind::Other));
    let bare = MemberDef::Flash { shape_info: None, raw_shape: None };
    assert!(matches!(cast_member_from_def(3, 2, &member_info("f", 0), &bare, &fonts(), 0).kind, MemberKind::Other));
}

#[test]
fn bitmap_palette_ids_move_down_by_the_cast_offset() {
    let def = |palette_id: i16| MemberDef::Bitmap { palette_id, reg_point: (5, -3), image_ref: 17, script_exists: true };
    let m = cast_member_from_def(2, 4, &member_info("bmp", 8), &def(12), &fonts(), 2);
    assert_eq!(m.reg_point, (5, -3));
    match m.kind {
        MemberKind::Bitmap(b) => {
            assert_eq!(b.palette_id, 10);
            assert_eq!(b.image_ref, 17);
            assert_eq!(b.reg_point, (5, -3));
            assert_eq!(b.script_id, 8);
            assert!(b.member_script_ref.is_some());
        }
        _ => panic!("expected a bitmap"),
    }
    match cast_member_from_def(2, 4, &member_info("bmp", 0), &def(-101), &fonts(), 2).kind {
        MemberKind::Bitmap(b) => assert_eq!(b.palette_id, -101),
        _ => panic!("expected a bitmap"),
    }
    match cast_member_from_def(2, 4, &member_info("bmp", 0), &def(12), &fonts(), 0).kind {
        MemberKind::Bitmap(b) => assert_eq!(b.palette_id, 12),
        _ => panic!("expected a bitmap"),
    }
}
