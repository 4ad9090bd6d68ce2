use vm_rust::cast_export::{
    build_bitmap_yml, build_film_loop_yml, build_script_yml, build_sound_yml, build_text_yml, export_cast, export_cast_number,
    member_type_name, palette_name, script_type_name, BitmapExport, ExportCast, ExportMember, FilmLoopExport,
    MemberContent, SlotScript, SoundExport, TextExport,
};
use vm_rust::cast_member::{FieldMember, PaletteMember, ScriptMember, ScriptType, TabStop};
use vm_rust::export::{ExportFile, FileContent};

fn member(number: u32, name: &str, content: MemberContent) -> ExportMember {
    ExportMember { number, name: name.to_string(), comments: String::new(), content, script: None }
}

fn bitmap(palette_id: i16, builtin: Option<&str>) -> BitmapExport {
    BitmapExport {
        bit_depth: 8,
        palette_id,
        builtin_palette: builtin.map(|s| s.to_string()),
        reg_x: 3,
        reg_y: -4,
        use_alpha: false,
        center_reg_point: true,
        trim_white_space: false,
        script_id: 0,
        image: None,
    }
}

fn text(f: &ExportFile) -> &str {
    match &f.content {
        FileContent::Text(t) => t.as_str(),
        FileContent::Binary(_) => panic!("expected text"),
    }
}

#[test]
fn script_and_member_type_names() {
    assert_eq!(script_type_name(&ScriptType::Member), "behavior");
    assert_eq!(script_type_name(&ScriptType::Movie), "movie");
    assert_eq!(script_type_name(&ScriptType::Unknown), "unknown");
    assert_eq!(member_type_name(&MemberContent::FilmLoop(FilmLoopExport {
        reg_point: (0, 0),
        width: 0,
        height: 0,
        center: 0,
        crop: 0,
        sound: 0,
        loops: 0,
    })), "film_loop");
    assert_eq!(member_type_name(&MemberContent::Other), "unknown");
}

#[test]
fn palettes_are_named_by_symbol_member_or_slot() {
    let cast = ExportCast {
        name: "c".to_string(),
        members: vec![
            member(5, "warm colors", MemberContent::Palette(PaletteMember::new())),
            member(6, "", MemberContent::Palette(PaletteMember::new())),
        ],
    };
    assert_eq!(palette_name(&bitmap(-1, Some("grayscale")), &cast), "grayscale");
    assert_eq!(palette_name(&bitmap(-1, None), &cast), "system-mac");
    assert_eq!(palette_name(&bitmap(0, None), &cast), "system-mac");
    assert_eq!(palette_name(&bitmap(5, None), &cast), "warm colors");
    assert_eq!(palette_name(&bitmap(6, None), &cast), "6");
    assert_eq!(palette_name(&bitmap(9, None), &cast), "9");
}

#[test]
fn member_descriptions() {
    let cast = ExportCast { name: "c".to_string(), members: vec![] };
    assert_eq!(
        build_bitmap_yml("slot: 1\n", &bitmap(0, None), &cast),
        "slot: 1\ntype: bitmap\n\nimage:\n  depth: 8\n  palette: system-mac\n  reg_point: [3, -4]\n  alpha: false\n  center_reg_point: true\n  trim_white_space: false\n"
    );
    assert_eq!(
        build_sound_yml("h\n", &SoundExport { loop_enabled: true, wav: vec![] }),
        "h\ntype: sound\n\naudio:\n  loop: true\n"
    );
    let sm = ScriptMember { script_id: 2, script_type: ScriptType::Parent, name: "p".to_string() };
    assert_eq!(build_script_yml("", &sm), "type: script\n\nscript:\n  script_type: parent\n");
    let fl = FilmLoopExport { reg_point: (1, 2), width: 30, height: 40, center: 1, crop: 0, sound: 2, loops: 0 };
    assert_eq!(
        build_film_loop_yml("", &fl),
        "type: film_loop\n\nfilm_loop:\n  reg_point: [1, 2]\n  width: 30\n  height: 40\n  center: true\n  crop: false\n  sound: true\n  loop: false\n"
    );
}

fn text_member() -> TextExport {
    TextExport {
        text: "hello".to_string(),
        rtf_source: String::new(),
        alignment: "left".to_string(),
        box_type: "adjust".to_string(),
        word_wrap: true,
        anti_alias: false,
        font: "Arial".to_string(),
        font_style: vec!["bold".to_string(), "italic".to_string()],
        font_size: 12,
        fixed_line_space: 0,
        top_spacing: 1,
        bottom_spacing: -1,
        width: 100,
        height: 20,
        char_spacing: 0,
        tab_stops: vec![TabStop { tab_type: "left".to_string(), position: 36 }],
        anti_alias_type: "AutoAlias".to_string(),
        script_id: 0,
    }
}

#[test]
fn text_description_lists_tab_stops_and_styles() {
    assert_eq!(
        build_text_yml("", &text_member()),
        "type: text\n\ntext:\n  alignment: left\n  box_type: adjust\n  word_wrap: true\n  width: 100\n  height: 20\n  char_spacing: 0\n  tab_stops:\n    - type: left\n      position: 36\n\nfont:\n  name: Arial\n  style: [bold, italic]\n  size: 12\n  anti_alias: false\n  anti_alias_type: AutoAlias\n  fixed_line_space: 0\n  top_spacing: 1\n  bottom_spacing: -1\n"
    );
    let mut plain = text_member();
    plain.tab_stops.clear();
    plain.font_style.clear();
    let yml = build_text_yml("", &plain);
    assert!(yml.contains("  char_spacing: 0\n\nfont:"));
    assert!(yml.contains("  style: []\n"));
}

#[test]
fn cast_exports_members_in_slot_order_with_their_scripts() {
    let mut field = FieldMember::new();
    field.text = "hi".to_string();
    field.script_id = 12;
    let mut field_member = member(3, "Greeting", MemberContent::Field(field));
    field_member.script = Some(SlotScript { script_type: ScriptType::Member, source: "on mouseUp\nend\n".to_string() });
    let mut script_member = member(
        1,
        "main",
        MemberContent::Script(ScriptMember { script_id: 1, script_type: ScriptType::Movie, name: "main".to_string() }),
    );
    script_member.script = Some(SlotScript { script_type: ScriptType::Movie, source: "on startMovie\nend\n".to_string() });
    let cast = ExportCast {
        name: "Internal".to_string(),
        members: vec![
            field_member,
            member(7, "", MemberContent::Font),
            script_member,
            member(9, "phys", MemberContent::Other),
            member(2, "bg", MemberContent::Sound(SoundExport { loop_enabled: false, wav: vec![1, 2, 3] })),
        ],
    };
    let (name, files) = export_cast(&cast);
    assert_eq!(name, "Internal");
    let paths: Vec<&str> = files.iter().map(|f| f.path.as_str()).collect();
    assert_eq!(
        paths,
        vec!["_cast.yml", "main.yml", "main.ls", "bg.yml", "bg.wav", "Greeting.yml", "Greeting.txt", "Greeting.ls", "member_7.yml"]
    );
    assert_eq!(text(&files[0]), "name: Internal\n");
    assert_eq!(text(&files[1]), "slot: 1\ntype: script\n\nscript:\n  script_type: movie\n");
    assert_eq!(text(&files[2]), "on startMovie\nend\n");
    assert!(matches!(&files[4].content, FileContent::Binary(d) if d == &vec![1, 2, 3]));
    let greeting = text(&files[5]);
    assert!(greeting.starts_with("slot: 3\ntype: field\n\nfield:\n"));
    assert!(greeting.ends_with(
        "  fixed_line_space: 0\n\nmember_script:\n  script_type: behavior\n  attached_to: field\n  script_id: 12\n"
    ));
    assert_eq!(text(&files[6]), "hi");
    assert_eq!(text(&files[7]), "on mouseUp\nend\n");
    assert_eq!(text(&files[8]), "slot: 7\ntype: font\n");
}

#[test]
fn a_member_script_without_its_own_id_is_noted_under_the_slot() {
    let mut font = member(4, "f", MemberContent::Font);
    font.script = Some(SlotScript { script_type: ScriptType::Score, source: String::new() });
    let cast = ExportCast { name: "c".to_string(), members: vec![font] };
    let (_, files) = export_cast(&cast);
    assert_eq!(files.len(), 3);
    assert_eq!(
        text(&files[1]),
        "slot: 4\ntype: font\n\nmember_script:\n  script_type: score\n  attached_to: font\n  script_id: 4\n"
    );
    assert_eq!(files[2].path, "f.ls");
}

#[test]
fn an_unknown_cast_number_exports_nothing() {
    let casts = vec![
        (1u32, ExportCast { name: "Internal".to_string(), members: vec![] }),
        (3u32, ExportCast { name: "Shared".to_string(), members: vec![] }),
    ];
    assert!(export_cast_number(&casts, 2).is_none());
    let (name, files) = export_cast_number(&casts, 3).unwrap();
    assert_eq!(name, "Shared");
    assert_eq!(files.len(), 1);
    assert_eq!(files[0].path, "_cast.yml");
    assert!(matches!(&files[0].content, FileContent::Text(t) if t == "name: Shared\n"));
}
