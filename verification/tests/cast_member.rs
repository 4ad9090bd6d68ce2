use vm_rust::cast_member::{compute_filmloop_initial_rect, SpriteRecord};
use vm_rust::cast_member::{
    parse_swf_dimensions, ButtonType, CastMemberTypeId, FieldInfo, FieldMember, FlashInfo, FlashMember, PaletteMember,
};
use vm_rust::datum::ColorRef;

#[test]
fn button_types() {
    assert_eq!(ButtonType::from_raw(1), ButtonType::CheckBox);
    assert_eq!(ButtonType::from_raw(2), ButtonType::RadioButton);
    assert_eq!(ButtonType::from_raw(0), ButtonType::PushButton);
    assert_eq!(ButtonType::from_raw(9), ButtonType::PushButton);
    assert_eq!(ButtonType::RadioButton.symbol_string(), "radioButton");
    assert_eq!(ButtonType::PushButton.symbol_string(), "pushButton");
}

#[test]
fn member_type_symbols() {
    assert_eq!(CastMemberTypeId::VectorShape.symbol_string().unwrap(), "vectorShape");
    assert_eq!(CastMemberTypeId::HavokPhysics.symbol_string().unwrap(), "havok");
    assert_eq!(CastMemberTypeId::PhysXPhysics.symbol_string().unwrap(), "physics");
    assert_eq!(CastMemberTypeId::Unknown.symbol_string().unwrap(), "unknown");
}

#[test]
fn new_field_defaults() {
    let f = FieldMember::new();
    assert_eq!(f.text, "");
    assert_eq!(f.alignment, "left");
    assert_eq!(f.font, "Arial");
    assert_eq!(f.font_size, 12);
    assert_eq!((f.width, f.height), (100, 100));
    assert_eq!(f.box_type, "adjust");
    assert_eq!(f.kerning_threshold, 14);
    assert!(f.word_wrap);
}

#[test]
fn caret_follows_the_end() {
    let mut f = FieldMember::new();
    f.set_text_preserving_caret("hello".to_string());
    // The caret was at the end of the empty text, so it follows to the new end.
    assert_eq!((f.sel_start, f.sel_end, f.sel_anchor), (5, 5, 5));
    f.set_text_preserving_caret("hello world".to_string());
    assert_eq!(f.sel_end, 11);
}

#[test]
fn caret_in_the_middle_stays_clamped() {
    let mut f = FieldMember::new();
    f.text = "abcdef".to_string();
    f.sel_start = 4;
    f.sel_end = 4;
    f.set_text_preserving_caret("abcdefgh".to_string());
    assert_eq!(f.sel_start, 4);
    f.set_text_preserving_caret("ab".to_string());
    assert_eq!((f.sel_start, f.sel_end), (2, 2));
    // A selection collapses to its end.
    f.text = "abcdef".to_string();
    f.sel_start = 1;
    f.sel_end = 3;
    f.set_text_preserving_caret("xyzxyz".to_string());
    assert_eq!((f.sel_start, f.sel_end, f.sel_anchor), (3, 3, 3));
}

#[test]
fn caret_counts_utf8_bytes() {
    let mut f = FieldMember::new();
    f.set_text_preserving_caret("é".to_string());
    assert_eq!(f.sel_end, 2);
}

#[test]
fn field_from_info() {
    let info = FieldInfo {
        alignment: "center".to_string(),
        word_wrap: false,
        font_name: "Geneva".to_string(),
        box_type: "scroll".to_string(),
        width: 80,
        height: 50,
        auto_tab: true,
        editable: true,
        bg_color_rgb: (1, 2, 3),
        text_height: 40,
        scroll: 7,
        border: 2,
        margin: 3,
        box_drop_shadow: 1,
        text_shadow: 4,
        rect_left: -1,
        rect_top: 0,
        rect_right: 79,
        rect_bottom: 50,
    };
    let f = FieldMember::from_field_info(&info);
    assert_eq!(f.height, 40 + 4 + 6);
    assert_eq!(f.alignment, "center");
    assert_eq!(f.font, "Geneva");
    assert_eq!(f.top_spacing, 7);
    assert_eq!(f.drop_shadow, 4);
    assert!(matches!(f.back_color, Some(ColorRef::Rgb(1, 2, 3))));
    assert!(f.editable && f.auto_tab && !f.word_wrap);
    assert_eq!(f.rect_left, -1);
}

#[test]
fn palette_is_256_black_entries() {
    let p = PaletteMember::new();
    assert_eq!(p.colors.len(), 256);
    assert!(p.colors.iter().all(|c| *c == (0, 0, 0)));
}

/// An uncompressed SWF header whose frame rect is (0, 0) - (width*20, height*20)
/// with 16-bit fields.
fn swf(width: i32, height: i32) -> Vec<u8> {
    let mut bits: Vec<bool> = Vec::new();
    let nbits = 16;
    for i in (0..5).rev() {
        bits.push((nbits >> i) & 1 == 1);
    }
    for v in [0, width * 20, 0, height * 20] {
        for i in (0..nbits).rev() {
            bits.push((v >> i) & 1 == 1);
        }
    }
    let mut data = vec![b'F', b'W', b'S', 6, 0, 0, 0, 0];
    for chunk in bits.chunks(8) {
        let mut byte = 0u8;
        for (i, b) in chunk.iter().enumerate() {
            if *b {
                byte |= 1 << (7 - i);
            }
        }
        data.push(byte);
    }
    data
}

#[test]
fn swf_dimensions() {
    assert_eq!(parse_swf_dimensions(&swf(550, 400)), Some((550, 400)));
    let mut compressed = swf(10, 10);
    compressed[0] = b'C';
    assert_eq!(parse_swf_dimensions(&compressed), None);
    assert_eq!(parse_swf_dimensions(&[b'F', b'W', b'S']), None);
}

#[test]
fn effective_rect_prefers_the_cached_rect() {
    let cached = FlashMember {
        data: swf(550, 400),
        reg_point: (0, 0),
        flash_info: Some(FlashInfo { flash_rect: (1, 2, 3, 4) }),
    };
    assert_eq!(cached.effective_rect(), (1, 2, 3, 4));
    let zero = FlashMember {
        data: swf(550, 400),
        reg_point: (0, 0),
        flash_info: Some(FlashInfo { flash_rect: (0, 0, 0, 0) }),
    };
    assert_eq!(zero.effective_rect(), (0, 0, 550, 400));
    let none = FlashMember { data: vec![1, 2, 3], reg_point: (0, 0), flash_info: None };
    assert_eq!(none.effective_rect(), (0, 0, 0, 0));
}

#[test]
fn film_loop_rect_holds_every_counted_sprite() {
    let rec = |cast_lib: u16, cast_member: u16, pos_x: i16, pos_y: i16, width: u16, height: u16| SpriteRecord {
        cast_lib,
        cast_member,
        pos_x,
        pos_y,
        width,
        height,
    };
    let data = vec![
        (0u32, 3u16, rec(1, 1, 500, 500, 10, 10)),
        (0, 6, rec(1, 2, 10, 20, 11, 4)),
        (1, 7, rec(0xfffe, 0, -5, 0, 2, 0)),
        (1, 8, rec(0, 3, 900, 900, 5, 5)),
        (2, 9, rec(1, 0, 900, 900, 5, 5)),
        (2, 10, rec(1, 4, 900, 900, 0, 0)),
    ];
    assert_eq!(compute_filmloop_initial_rect(&data, (0, 0)), (-6, 0, 16, 22));
    assert_eq!(compute_filmloop_initial_rect(&vec![], (0, 0)), (0, 0, 1, 1));
}
