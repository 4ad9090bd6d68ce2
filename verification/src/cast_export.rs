//! Exporting a whole cast: each member, in slot order, as a YAML description
//! and the files that hold its media, with the scripts the cast keeps under
//! the members' slots.
use vstd::prelude::*;
use crate::cast_member::{
    ButtonMember, FieldMember, FlashMember, PaletteMember, ScriptMember, ScriptType, ShapeMember, TabStop,
};
use crate::export::{
    act_byte, binary_file, bitmap_png, bool_str, bool_text, build_button_yml, build_field_yml, build_flash_yml,
    build_shape_yml, button_yml, encode_act, encode_png, field_yml, flash_yml, kv, kv_line, member_file_stem,
    member_header_text, member_stem_text, member_yml_header, pair_string, pair_text, section_text, shape_yml,
    text_file, yaml_string, yaml_text, Bitmap, ExportFile, FileContent, Section,
};
use crate::text::{int_to_decimal, int_to_string, join_strings, push_char, seq_join, views_of};

verus! {

// ---- What the export reads of a cast ----

/// A bitmap member's settings, as the export writes them, and its image.
pub struct BitmapExport {
    pub bit_depth: u8,
    pub palette_id: i16,
    /// The symbol of the built-in palette this (negative) id names, if any.
    pub builtin_palette: Option<String>,
    pub reg_x: i16,
    pub reg_y: i16,
    pub use_alpha: bool,
    pub center_reg_point: bool,
    pub trim_white_space: bool,
    pub script_id: u32,
    /// The bitmap's pixels, where the player holds them.
    pub image: Option<Bitmap>,
}

/// A sound member: whether it loops, and its samples as a WAV file.
pub struct SoundExport {
    pub loop_enabled: bool,
    pub wav: Vec<u8>,
}

/// A text member's settings and text, as the export writes them.
pub struct TextExport {
    pub text: String,
    pub rtf_source: String,
    pub alignment: String,
    pub box_type: String,
    pub word_wrap: bool,
    pub anti_alias: bool,
    pub font: String,
    pub font_style: Vec<String>,
    pub font_size: u16,
    pub fixed_line_space: u16,
    pub top_spacing: i16,
    pub bottom_spacing: i16,
    pub width: u16,
    pub height: u16,
    pub char_spacing: i32,
    pub tab_stops: Vec<TabStop>,
    pub anti_alias_type: String,
    pub script_id: u32,
}

/// A film loop's settings.
pub struct FilmLoopExport {
    pub reg_point: (i16, i16),
    pub width: u16,
    pub height: u16,
    pub center: u8,
    pub crop: u8,
    pub sound: u8,
    pub loops: u8,
}

/// What a member is, with what the export writes of it. Vector shapes and
/// 3D worlds carry their sections already written, as their settings are
/// fractional numbers.
pub enum MemberContent {
    Bitmap(BitmapExport),
    Sound(SoundExport),
    Script(ScriptMember),
    Text(TextExport),
    Field(FieldMember),
    Button(ButtonMember),
    Shape(ShapeMember),
    VectorShape(String),
    Palette(PaletteMember),
    Flash(FlashMember),
    FilmLoop(FilmLoopExport),
    Shockwave3d { sections: String, w3d: Vec<u8> },
    Font,
    /// A member the export writes nothing of.
    Other,
}

/// The script the cast keeps under a member's slot: its kind and its source.
pub struct SlotScript {
    pub script_type: ScriptType,
    pub source: String,
}

/// A member of the cast.
pub struct ExportMember {
    pub number: u32,
    pub name: String,
    pub comments: String,
    pub content: MemberContent,
    pub script: Option<SlotScript>,
}

/// A cast: its name and its members.
pub struct ExportCast {
    pub name: String,
    pub members: Vec<ExportMember>,
}

// ---- Names ----

/// The name a script type is exported under.
pub open spec fn script_type_text(t: ScriptType) -> Seq<char> {
    match t {
        ScriptType::Movie => "movie"@,
        ScriptType::Score => "score"@,
        ScriptType::Member => "behavior"@,
        ScriptType::Parent => "parent"@,
        ScriptType::Unknown => "unknown"@,
    }
}

/// The name a script type is exported under; see `script_type_text`.
pub fn script_type_name(t: &ScriptType) -> (r: &'static str)
    ensures
        r@ == script_type_text(*t),
{
    match t {
        ScriptType::Movie => "movie",
        ScriptType::Score => "score",
        ScriptType::Member => "behavior",
        ScriptType::Parent => "parent",
        ScriptType::Unknown => "unknown",
    }
}

/// The `type:` name a member is written under.
pub open spec fn member_type_text(c: MemberContent) -> Seq<char> {
    match c {
        MemberContent::Bitmap(_) => "bitmap"@,
        MemberContent::Sound(_) => "sound"@,
        MemberContent::Script(_) => "script"@,
        MemberContent::Text(_) => "text"@,
        MemberContent::Field(_) => "field"@,
        MemberContent::Button(_) => "button"@,
        MemberContent::Shape(_) => "shape"@,
        MemberContent::VectorShape(_) => "vector_shape"@,
        MemberContent::Palette(_) => "palette"@,
        MemberContent::Flash(_) => "flash"@,
        MemberContent::FilmLoop(_) => "film_loop"@,
        MemberContent::Shockwave3d { .. } => "shockwave3d"@,
        MemberContent::Font => "font"@,
        MemberContent::Other => "unknown"@,
    }
}

/// The `type:` name a member is written under; see `member_type_text`.
pub fn member_type_name(c: &MemberContent) -> (r: &'static str)
    ensures
        r@ == member_type_text(*c),
{
    match c {
        MemberContent::Bitmap(_) => "bitmap",
        MemberContent::Sound(_) => "sound",
        MemberContent::Script(_) => "script",
        MemberContent::Text(_) => "text",
        MemberContent::Field(_) => "field",
        MemberContent::Button(_) => "button",
        MemberContent::Shape(_) => "shape",
        MemberContent::VectorShape(_) => "vector_shape",
        MemberContent::Palette(_) => "palette",
        MemberContent::Flash(_) => "flash",
        MemberContent::FilmLoop(_) => "film_loop",
        MemberContent::Shockwave3d { .. } => "shockwave3d",
        MemberContent::Font => "font",
        MemberContent::Other => "unknown",
    }
}

/// The id of the script a bitmap, button, shape, field or text member
/// carries; none where it is 0 or the member has no such id.
pub open spec fn member_script_id(c: MemberContent) -> Option<u32> {
    let id = match c {
        MemberContent::Bitmap(b) => b.script_id,
        MemberContent::Button(b) => b.script_id,
        MemberContent::Shape(s) => s.script_id,
        MemberContent::Field(f) => f.script_id,
        MemberContent::Text(t) => t.script_id,
        _ => 0,
    };
    if id > 0 {
        Some(id)
    } else {
        None
    }
}

impl ExportMember {
    /// The id of the script the member carries; see `member_script_id`.
    pub fn get_script_id(&self) -> (r: Option<u32>)
        ensures
            r == member_script_id(self.content),
    {
        let id = match &self.content {
            MemberContent::Bitmap(b) => b.script_id,
            MemberContent::Button(b) => b.script_id,
            MemberContent::Shape(s) => s.script_id,
            MemberContent::Field(f) => f.script_id,
            MemberContent::Text(t) => t.script_id,
            _ => 0,
        };
        if id > 0 {
            Some(id)
        } else {
            None
        }
    }
}

// ---- Member descriptions ----

/// The first member of the cast in this slot, if any.
pub open spec fn member_in_slot(members: Seq<ExportMember>, number: u32) -> Option<ExportMember>
    decreases members.len(),
{
    if members.len() == 0 {
        None
    } else if members[0].number == number {
        Some(members[0])
    } else {
        member_in_slot(members.drop_first(), number)
    }
}

/// The palette a bitmap names: a built-in palette by its symbol; a palette
/// member of the cast by its name, or by its slot where it has no name or
/// is not in the cast; `system-mac` otherwise.
pub open spec fn palette_text(bm: BitmapExport, members: Seq<ExportMember>) -> Seq<char> {
    if bm.palette_id < 0 && bm.builtin_palette is Some {
        bm.builtin_palette.unwrap()@
    } else if bm.palette_id > 0 {
        match member_in_slot(members, bm.palette_id as u32) {
            Some(m) if m.name@.len() > 0 => yaml_text(m.name@),
            _ => int_to_decimal(bm.palette_id as int),
        }
    } else {
        "system-mac"@
    }
}

/// The palette a bitmap names; see `palette_text`.
pub fn palette_name(bm: &BitmapExport, cast: &ExportCast) -> (r: String)
    ensures
        r@ == palette_text(*bm, cast.members@),
{
    if bm.palette_id < 0 {
        if let Some(symbol) = &bm.builtin_palette {
            return symbol.clone();
        }
    }
    if bm.palette_id > 0 {
        let slot = bm.palette_id as u32;
        let mut i: usize = 0;
        assert(cast.members@.skip(0) =~= cast.members@);
        while i < cast.members.len()
            invariant
                i <= cast.members.len(),
                bm.palette_id > 0,
                slot == bm.palette_id as u32,
                member_in_slot(cast.members@, slot) == member_in_slot(cast.members@.skip(i as int), slot),
            decreases cast.members.len() - i,
        {
            assert(cast.members@.skip(i as int).drop_first() =~= cast.members@.skip(i + 1));
            if cast.members[i].number == slot {
                if cast.members[i].name.unicode_len() > 0 {
                    return yaml_string(cast.members[i].name.as_str());
                }
                return int_to_string(bm.palette_id as i64);
            }
            i = i + 1;
        }
        return int_to_string(bm.palette_id as i64);
    }
    String::from_str("system-mac")
}

/// The lines of a bitmap's `image` section.
pub open spec fn bitmap_lines(bm: BitmapExport, members: Seq<ExportMember>) -> Seq<Seq<char>> {
    seq![
        kv("depth"@, int_to_decimal(bm.bit_depth as int)),
        kv("palette"@, palette_text(bm, members)),
        kv("reg_point"@, pair_text(bm.reg_x as int, bm.reg_y as int)),
        kv("alpha"@, bool_text(bm.use_alpha)),
        kv("center_reg_point"@, bool_text(bm.center_reg_point)),
        kv("trim_white_space"@, bool_text(bm.trim_white_space)),
    ]
}

/// A bitmap member's YAML description after the member header.
pub open spec fn bitmap_yml(header: Seq<char>, bm: BitmapExport, members: Seq<ExportMember>) -> Seq<char> {
    header + "type: bitmap\n\n"@ + section_text("image"@, bitmap_lines(bm, members))
}

/// A bitmap member's YAML description; see `bitmap_yml`.
pub fn build_bitmap_yml(header: &str, bm: &BitmapExport, cast: &ExportCast) -> (r: String)
    ensures
        r@ == bitmap_yml(header@, *bm, cast.members@),
{
    let mut image = Section::new("image");
    image.push(kv_line("depth", int_to_string(bm.bit_depth as i64).as_str()));
    image.push(kv_line("palette", palette_name(bm, cast).as_str()));
    image.push(kv_line("reg_point", pair_string(bm.reg_x as i64, bm.reg_y as i64).as_str()));
    image.push(kv_line("alpha", bool_str(bm.use_alpha)));
    image.push(kv_line("center_reg_point", bool_str(bm.center_reg_point)));
    image.push(kv_line("trim_white_space", bool_str(bm.trim_white_space)));
    assert(image.lines_view() =~= bitmap_lines(*bm, cast.members@));
    let mut s = header.to_string();
    s.append("type: bitmap\n\n");
    s.append(image.build().as_str());
    assert(s@ =~= bitmap_yml(header@, *bm, cast.members@));
    s
}

/// A sound member's YAML description after the member header.
pub open spec fn sound_yml(header: Seq<char>, sm: SoundExport) -> Seq<char> {
    header + "type: sound\n\n"@ + section_text("audio"@, seq![kv("loop"@, bool_text(sm.loop_enabled))])
}

/// A sound member's YAML description; see `sound_yml`.
pub fn build_sound_yml(header: &str, sm: &SoundExport) -> (r: String)
    ensures
        r@ == sound_yml(header@, *sm),
{
    let mut audio = Section::new("audio");
    audio.push(kv_line("loop", bool_str(sm.loop_enabled)));
    assert(audio.lines_view() =~= seq![kv("loop"@, bool_text(sm.loop_enabled))]);
    let mut s = header.to_string();
    s.append("type: sound\n\n");
    s.append(audio.build().as_str());
    assert(s@ =~= sound_yml(header@, *sm));
    s
}

/// A script member's YAML description after the member header.
pub open spec fn script_yml(header: Seq<char>, sm: ScriptMember) -> Seq<char> {
    header + "type: script\n\n"@ + section_text(
        "script"@,
        seq![kv("script_type"@, script_type_text(sm.script_type))],
    )
}

/// A script member's YAML description; see `script_yml`.
pub fn build_script_yml(header: &str, sm: &ScriptMember) -> (r: String)
    ensures
        r@ == script_yml(header@, *sm),
{
    let mut script = Section::new("script");
    script.push(kv_line("script_type", script_type_name(&sm.script_type)));
    assert(script.lines_view() =~= seq![kv("script_type"@, script_type_text(sm.script_type))]);
    let mut s = header.to_string();
    s.append("type: script\n\n");
    s.append(script.build().as_str());
    assert(s@ =~= script_yml(header@, *sm));
    s
}

/// The lines of a film loop's section.
pub open spec fn film_loop_lines(fl: FilmLoopExport) -> Seq<Seq<char>> {
    seq![
        kv("reg_point"@, pair_text(fl.reg_point.0 as int, fl.reg_point.1 as int)),
        kv("width"@, int_to_decimal(fl.width as int)),
        kv("height"@, int_to_decimal(fl.height as int)),
        kv("center"@, bool_text(fl.center != 0)),
        kv("crop"@, bool_text(fl.crop != 0)),
        kv("sound"@, bool_text(fl.sound != 0)),
        kv("loop"@, bool_text(fl.loops != 0)),
    ]
}

/// A film loop's YAML description after the member header.
pub open spec fn film_loop_yml(header: Seq<char>, fl: FilmLoopExport) -> Seq<char> {
    header + "type: film_loop\n\n"@ + section_text("film_loop"@, film_loop_lines(fl))
}

/// A film loop's YAML description; see `film_loop_yml`.
pub fn build_film_loop_yml(header: &str, fl: &FilmLoopExport) -> (r: String)
    ensures
        r@ == film_loop_yml(header@, *fl),
{
    let mut section = Section::new("film_loop");
    section.push(kv_line("reg_point", pair_string(fl.reg_point.0 as i64, fl.reg_point.1 as i64).as_str()));
    section.push(kv_line("width", int_to_string(fl.width as i64).as_str()));
    section.push(kv_line("height", int_to_string(fl.height as i64).as_str()));
    section.push(kv_line("center", bool_str(fl.center != 0)));
    section.push(kv_line("crop", bool_str(fl.crop != 0)));
    section.push(kv_line("sound", bool_str(fl.sound != 0)));
    section.push(kv_line("loop", bool_str(fl.loops != 0)));
    assert(section.lines_view() =~= film_loop_lines(*fl));
    let mut s = header.to_string();
    s.append("type: film_loop\n\n");
    s.append(section.build().as_str());
    assert(s@ =~= film_loop_yml(header@, *fl));
    s
}

/// The two lines of each tab stop: its type and its position.
pub open spec fn tab_stop_lines(stops: Seq<TabStop>) -> Seq<Seq<char>>
    decreases stops.len(),
{
    if stops.len() == 0 {
        Seq::empty()
    } else {
        tab_stop_lines(stops.drop_last()) + seq![
            "  - type: "@ + stops.last().tab_type@,
            "    position: "@ + int_to_decimal(stops.last().position as int),
        ]
    }
}

/// The lines of a text member's `text` section.
pub open spec fn text_lines(tm: TextExport) -> Seq<Seq<char>> {
    seq![
        kv("alignment"@, tm.alignment@),
        kv("box_type"@, tm.box_type@),
        kv("word_wrap"@, bool_text(tm.word_wrap)),
        kv("width"@, int_to_decimal(tm.width as int)),
        kv("height"@, int_to_decimal(tm.height as int)),
        kv("char_spacing"@, int_to_decimal(tm.char_spacing as int)),
    ] + if tm.tab_stops@.len() == 0 {
        Seq::empty()
    } else {
        seq!["tab_stops:"@] + tab_stop_lines(tm.tab_stops@)
    }
}

/// The lines of a text member's `font` section.
pub open spec fn text_font_lines(tm: TextExport) -> Seq<Seq<char>> {
    seq![
        kv("name"@, yaml_text(tm.font@)),
        kv("style"@, seq!['['] + seq_join(views_of(tm.font_style@), ", "@) + seq![']']),
        kv("size"@, int_to_decimal(tm.font_size as int)),
        kv("anti_alias"@, bool_text(tm.anti_alias)),
        kv("anti_alias_type"@, tm.anti_alias_type@),
        kv("fixed_line_space"@, int_to_decimal(tm.fixed_line_space as int)),
        kv("top_spacing"@, int_to_decimal(tm.top_spacing as int)),
        kv("bottom_spacing"@, int_to_decimal(tm.bottom_spacing as int)),
    ]
}

/// A text member's YAML description after the member header.
pub open spec fn text_yml(header: Seq<char>, tm: TextExport) -> Seq<char> {
    header + "type: text\n\n"@ + section_text("text"@, text_lines(tm)) + seq!['\n'] + section_text(
        "font"@,
        text_font_lines(tm),
    )
}

/// A text member's YAML description; see `text_yml`.
pub fn build_text_yml(header: &str, tm: &TextExport) -> (r: String)
    ensures
        r@ == text_yml(header@, *tm),
{
    let mut text = Section::new("text");
    text.push(kv_line("alignment", tm.alignment.as_str()));
    text.push(kv_line("box_type", tm.box_type.as_str()));
    text.push(kv_line("word_wrap", bool_str(tm.word_wrap)));
    text.push(kv_line("width", int_to_string(tm.width as i64).as_str()));
    text.push(kv_line("height", int_to_string(tm.height as i64).as_str()));
    text.push(kv_line("char_spacing", int_to_string(tm.char_spacing as i64).as_str()));
    let ghost first = text.lines_view();
    if tm.tab_stops.len() > 0 {
        text.push(String::from_str("tab_stops:"));
        let ghost head = text.lines_view();
        let mut i: usize = 0;
        while i < tm.tab_stops.len()
            invariant
                i <= tm.tab_stops.len(),
                text.name_view() == "text"@,
                text.lines_view() == head + tab_stop_lines(tm.tab_stops@.take(i as int)),
            decreases tm.tab_stops.len() - i,
        {
            let stop = &tm.tab_stops[i];
            let mut kind = String::from_str("  - type: ");
            kind.append(stop.tab_type.as_str());
            text.push(kind);
            let mut pos = String::from_str("    position: ");
            pos.append(int_to_string(stop.position as i64).as_str());
            text.push(pos);
            assert(tm.tab_stops@.take(i + 1).drop_last() =~= tm.tab_stops@.take(i as int));
            i = i + 1;
            assert(text.lines_view() =~= head + tab_stop_lines(tm.tab_stops@.take(i as int)));
        }
        assert(tm.tab_stops@.take(tm.tab_stops.len() as int) =~= tm.tab_stops@);
    }
    assert(text.lines_view() =~= text_lines(*tm));

    let mut font = Section::new("font");
    font.push(kv_line("name", yaml_string(tm.font.as_str()).as_str()));
    let mut style = String::new();
    push_char(&mut style, '[');
    style.append(join_strings(&tm.font_style, ", ").as_str());
    push_char(&mut style, ']');
    assert(style@ =~= seq!['['] + seq_join(views_of(tm.font_style@), ", "@) + seq![']']);
    font.push(kv_line("style", style.as_str()));
    font.push(kv_line("size", int_to_string(tm.font_size as i64).as_str()));
    font.push(kv_line("anti_alias", bool_str(tm.anti_alias)));
    font.push(kv_line("anti_alias_type", tm.anti_alias_type.as_str()));
    font.push(kv_line("fixed_line_space", int_to_string(tm.fixed_line_space as i64).as_str()));
    font.push(kv_line("top_spacing", int_to_string(tm.top_spacing as i64).as_str()));
    font.push(kv_line("bottom_spacing", int_to_string(tm.bottom_spacing as i64).as_str()));
    assert(font.lines_view() =~= text_font_lines(*tm));

    let mut s = header.to_string();
    s.append("type: text\n\n");
    s.append(text.build().as_str());
    push_char(&mut s, '\n');
    s.append(font.build().as_str());
    assert(s@ =~= text_yml(header@, *tm));
    s
}


// ---- The files of a cast ----

/// A file's contents as values.
pub enum FileBody {
    Text(Seq<char>),
    Binary(Seq<u8>),
}

/// A file as values: its path and its contents.
pub open spec fn file_view(f: ExportFile) -> (Seq<char>, FileBody) {
    (
        f.path@,
        match f.content {
            FileContent::Text(t) => FileBody::Text(t@),
            FileContent::Binary(d) => FileBody::Binary(d@),
        },
    )
}

/// The files as values.
pub open spec fn files_view(files: Seq<ExportFile>) -> Seq<(Seq<char>, FileBody)> {
    files.map_values(|f: ExportFile| file_view(f))
}

/// A palette's ACT file.
pub open spec fn act_bytes(colors: Seq<(u8, u8, u8)>) -> Seq<u8> {
    Seq::new(768, |i: int| act_byte(colors, i))
}

/// The files a member is written as, each named after its stem: its YAML
/// description, then its text, sound, image or other media where it has
/// them (a bitmap's image only where it encodes as PNG; a text's RTF source
/// where it has one, else its plain text; a script member's source where
/// the cast holds it).
pub open spec fn member_files(m: ExportMember, members: Seq<ExportMember>) -> Seq<(Seq<char>, FileBody)> {
    let stem = member_stem_text(m.number, m.name@);
    let header = member_header_text(m.number, m.name@, m.comments@);
    let yml = stem + ".yml"@;
    match m.content {
        MemberContent::Bitmap(bm) => seq![(yml, FileBody::Text(bitmap_yml(header, bm, members)))] + match bm.image {
            Some(b) => match bitmap_png(b) {
                Some(png) => seq![(stem + ".png"@, FileBody::Binary(png))],
                None => Seq::empty(),
            },
            None => Seq::empty(),
        },
        MemberContent::Sound(sm) => seq![
            (yml, FileBody::Text(sound_yml(header, sm))),
            (stem + ".wav"@, FileBody::Binary(sm.wav@)),
        ],
        MemberContent::Script(sm) => seq![(yml, FileBody::Text(script_yml(header, sm)))] + match m.script {
            Some(sc) => seq![(stem + ".ls"@, FileBody::Text(sc.source@))],
            None => Seq::empty(),
        },
        MemberContent::Text(tm) => seq![
            (yml, FileBody::Text(text_yml(header, tm))),
            if tm.rtf_source@.len() > 0 {
                (stem + ".rtf"@, FileBody::Text(tm.rtf_source@))
            } else {
                (stem + ".txt"@, FileBody::Text(tm.text@))
            },
        ],
        MemberContent::Field(fm) => seq![
            (yml, FileBody::Text(field_yml(header, fm))),
            (stem + ".txt"@, FileBody::Text(fm.text@)),
        ],
        MemberContent::Button(bm) => seq![
            (yml, FileBody::Text(button_yml(header, bm))),
            (stem + ".txt"@, FileBody::Text(bm.field.text@)),
        ],
        MemberContent::Shape(sm) => seq![(yml, FileBody::Text(shape_yml(header, sm)))],
        MemberContent::VectorShape(sections) => seq![
            (yml, FileBody::Text(header + "type: vector_shape\n\n"@ + sections@)),
        ],
        MemberContent::Palette(pm) => seq![
            (yml, FileBody::Text(header + "type: palette\n"@)),
            (stem + ".act"@, FileBody::Binary(act_bytes(pm.colors@))),
        ],
        MemberContent::Flash(fm) => seq![
            (yml, FileBody::Text(flash_yml(header, fm))),
            (stem + ".swf"@, FileBody::Binary(fm.data@)),
        ],
        MemberContent::FilmLoop(fl) => seq![(yml, FileBody::Text(film_loop_yml(header, fl)))],
        MemberContent::Shockwave3d { sections, w3d } => seq![
            (yml, FileBody::Text(header + "type: shockwave3d\n\n"@ + sections@)),
            (stem + ".w3d"@, FileBody::Binary(w3d@)),
        ],
        MemberContent::Font => seq![(yml, FileBody::Text(header + "type: font\n"@))],
        MemberContent::Other => Seq::empty(),
    }
}

/// The note added to a member's description for the script kept under its
/// slot: the script's kind, what it is attached to, and its id.
pub open spec fn member_script_note(script_type: ScriptType, content: MemberContent, script_id: u32) -> Seq<char> {
    "\nmember_script:\n  script_type: "@ + script_type_text(script_type) + "\n  attached_to: "@
        + member_type_text(content) + "\n  script_id: "@ + int_to_decimal(script_id as int) + seq!['\n']
}

/// Text ending in a line break: as it is if it ends in one, else with one.
pub open spec fn with_final_newline(t: Seq<char>) -> Seq<char> {
    if t.len() > 0 && t.last() == '\n' {
        t
    } else {
        t.push('\n')
    }
}

/// The files after adding `note` to the first file with this path, where
/// that file is text (a binary file of the path is left as it is).
pub open spec fn attach_note(files: Seq<(Seq<char>, FileBody)>, path: Seq<char>, note: Seq<char>) -> Seq<(Seq<char>, FileBody)>
    decreases files.len(),
{
    if files.len() == 0 {
        files
    } else if files[0].0 == path {
        match files[0].1 {
            FileBody::Text(t) => files.update(0, (path, FileBody::Text(with_final_newline(t) + note))),
            FileBody::Binary(_) => files,
        }
    } else {
        seq![files[0]] + attach_note(files.drop_first(), path, note)
    }
}

/// The files after writing a member: its own files, then, for a member
/// other than a script with a script kept under its slot, the script's
/// note in the first file of the member's YAML path and the script's source.
pub open spec fn member_step(files: Seq<(Seq<char>, FileBody)>, m: ExportMember, members: Seq<ExportMember>) -> Seq<(Seq<char>, FileBody)> {
    let with_member = files + member_files(m, members);
    let stem = member_stem_text(m.number, m.name@);
    match m.script {
        Some(sc) if !(m.content is Script) => {
            let id = match member_script_id(m.content) {
                Some(id) => id,
                None => m.number,
            };
            attach_note(with_member, stem + ".yml"@, member_script_note(sc.script_type, m.content, id)).push(
                (stem + ".ls"@, FileBody::Text(sc.source@)),
            )
        },
        _ => with_member,
    }
}

/// The files of a cast whose members are written in this order: `_cast.yml`
/// with the cast's name, then each member's.
pub open spec fn cast_files(name: Seq<char>, ordered: Seq<ExportMember>, members: Seq<ExportMember>) -> Seq<(Seq<char>, FileBody)>
    decreases ordered.len(),
{
    if ordered.len() == 0 {
        seq![("_cast.yml"@, FileBody::Text("name: "@ + yaml_text(name) + seq!['\n']))]
    } else {
        member_step(cast_files(name, ordered.drop_last(), members), ordered.last(), members)
    }
}

/// `order` lists each member's position once, by slot number, members of
/// one slot in the order they come.
pub open spec fn is_slot_order(order: Seq<int>, members: Seq<ExportMember>) -> bool {
    &&& order.len() == members.len()
    &&& forall|i: int| 0 <= i < order.len() ==> 0 <= #[trigger] order[i] < members.len()
    &&& forall|i: int, j: int| 0 <= i < j < order.len() ==> order[i] != order[j]
    &&& forall|i: int, j: int|
        0 <= i < j < order.len() ==> members[#[trigger] order[i]].number < members[#[trigger] order[j]].number
            || (members[order[i]].number == members[order[j]].number && order[i] < order[j])
}

/// The positions of the members by slot number; see `is_slot_order`.
fn slot_order(members: &Vec<ExportMember>) -> (order: Vec<usize>)
    ensures
        is_slot_order(order@.map_values(|k: usize| k as int), members@),
{
    let mut order: Vec<usize> = Vec::new();
    let mut k: usize = 0;
    while k < members.len()
        invariant
            k <= members.len(),
            order.len() == k,
            forall|i: int| 0 <= i < order.len() ==> #[trigger] order@[i] < k,
            forall|i: int, j: int| 0 <= i < j < order.len() ==> order@[i] != order@[j],
            forall|i: int, j: int|
                0 <= i < j < order.len() ==> members@[#[trigger] order@[i] as int].number < members@[#[trigger] order@[j] as int].number
                    || (members@[order@[i] as int].number == members@[order@[j] as int].number && order@[i] < order@[j]),
        decreases members.len() - k,
    {
        let key = members[k].number;
        let mut p: usize = 0;
        while p < order.len() && members[order[p]].number <= key
            invariant
                p <= order.len(),
                k < members.len(),
                key == members@[k as int].number,
                forall|i: int| 0 <= i < order.len() ==> #[trigger] order@[i] < k,
                forall|i: int| 0 <= i < p ==> members@[#[trigger] order@[i] as int].number <= key,
            decreases order.len() - p,
        {
            p = p + 1;
        }
        let ghost before = order@;
        proof {
            if p < order.len() {
                assert forall|i: int| p <= i < order.len() implies members@[#[trigger] order@[i] as int].number > key by {
                    if i > p {
                        assert(members@[order@[p as int] as int].number < members@[order@[i] as int].number
                            || members@[order@[p as int] as int].number == members@[order@[i] as int].number);
                    }
                }
            }
        }
        order.insert(p, k);
        proof {
            assert forall|i: int| 0 <= i < order.len() implies #[trigger] order@[i] < k + 1 by {
                if i < p {
                    assert(order@[i] == before[i]);
                } else if i > p {
                    assert(order@[i] == before[i - 1]);
                }
            }
            assert forall|i: int, j: int| 0 <= i < j < order.len() implies order@[i] != order@[j] by {
                if j < p {
                } else if j == p {
                    assert(order@[i] == before[i]);
                } else if i < p {
                    assert(order@[j] == before[j - 1]);
                } else if i == p {
                    assert(order@[j] == before[j - 1]);
                } else {
                    assert(order@[i] == before[i - 1]);
                    assert(order@[j] == before[j - 1]);
                }
            }
            assert forall|i: int, j: int| 0 <= i < j < order.len() implies members@[#[trigger] order@[i] as int].number
                < members@[#[trigger] order@[j] as int].number || (members@[order@[i] as int].number
                == members@[order@[j] as int].number && order@[i] < order@[j]) by {
                if j < p {
                    assert(order@[i] == before[i] && order@[j] == before[j]);
                } else if j == p {
                    assert(order@[i] == before[i]);
                } else if i < p {
                    assert(order@[i] == before[i] && order@[j] == before[j - 1]);
                } else if i == p {
                    assert(order@[j] == before[j - 1]);
                } else {
                    assert(order@[i] == before[i - 1] && order@[j] == before[j - 1]);
                }
            }
        }
        k = k + 1;
    }
    let ghost ints = order@.map_values(|k: usize| k as int);
    assert forall|i: int, j: int| 0 <= i < j < ints.len() implies ints[i] != ints[j] by {
        assert(order@[i] != order@[j]);
    }
    order
}


/// A bitmap's pixels fit four times over in memory: the export turns them
/// into RGBA bytes.
pub open spec fn image_fits(c: MemberContent) -> bool {
    match c {
        MemberContent::Bitmap(bm) => match bm.image {
            Some(b) => 4 * b.data.len() <= usize::MAX,
            None => true,
        },
        _ => true,
    }
}

fn push_file(files: &mut Vec<ExportFile>, f: ExportFile)
    ensures
        files_view(final(files)@) == files_view(old(files)@).push(file_view(f)),
{
    let ghost before = files@;
    files.push(f);
    assert(files_view(files@) =~= files_view(before).push(file_view(f)));
}

/// The stem with an extension.
fn stem_path(stem: &String, ext: &str) -> (r: String)
    ensures
        r@ == stem@ + ext@,
{
    let mut p = stem.clone();
    p.append(ext);
    p
}

/// Text after the header: the header, then `rest`.
fn after_header(header: &String, rest: &str) -> (r: String)
    ensures
        r@ == header@ + rest@,
{
    let mut t = header.clone();
    t.append(rest);
    t
}

/// Writes a member's own files; see `member_files`.
#[verifier::rlimit(50)]
#[verifier::spinoff_prover]
fn push_member_files(files: &mut Vec<ExportFile>, m: &ExportMember, cast: &ExportCast)
    requires
        image_fits(m.content),
    ensures
        files_view(final(files)@) == files_view(old(files)@) + member_files(*m, cast.members@),
{
    let ghost start = files_view(files@);
    let stem = member_file_stem(m.number, m.name.as_str());
    let header = member_yml_header(m.number, m.name.as_str(), m.comments.as_str());
    let yml = stem_path(&stem, ".yml");
    match &m.content {
        MemberContent::Bitmap(bm) => {
            push_file(files, text_file(yml, build_bitmap_yml(header.as_str(), bm, cast)));
            if let Some(b) = &bm.image {
                if let Some(png) = encode_png(b) {
                    push_file(files, binary_file(stem_path(&stem, ".png"), png));
                }
            }
        },
        MemberContent::Sound(sm) => {
            push_file(files, text_file(yml, build_sound_yml(header.as_str(), sm)));
            push_file(files, binary_file(stem_path(&stem, ".wav"), sm.wav.clone()));
        },
        MemberContent::Script(sm) => {
            push_file(files, text_file(yml, build_script_yml(header.as_str(), sm)));
            if let Some(sc) = &m.script {
                push_file(files, text_file(stem_path(&stem, ".ls"), sc.source.clone()));
            }
        },
        MemberContent::Text(tm) => {
            push_file(files, text_file(yml, build_text_yml(header.as_str(), tm)));
            if tm.rtf_source.unicode_len() > 0 {
                push_file(files, text_file(stem_path(&stem, ".rtf"), tm.rtf_source.clone()));
            } else {
                push_file(files, text_file(stem_path(&stem, ".txt"), tm.text.clone()));
            }
        },
        MemberContent::Field(fm) => {
            push_file(files, text_file(yml, build_field_yml(header.as_str(), fm)));
            push_file(files, text_file(stem_path(&stem, ".txt"), fm.text.clone()));
        },
        MemberContent::Button(bm) => {
            push_file(files, text_file(yml, build_button_yml(header.as_str(), bm)));
            push_file(files, text_file(stem_path(&stem, ".txt"), bm.field.text.clone()));
        },
        MemberContent::Shape(sm) => {
            push_file(files, text_file(yml, build_shape_yml(header.as_str(), sm)));
        },
        MemberContent::VectorShape(sections) => {
            let mut t = after_header(&header, "type: vector_shape\n\n");
            t.append(sections.as_str());
            push_file(files, text_file(yml, t));
        },
        MemberContent::Palette(pm) => {
            push_file(files, text_file(yml, after_header(&header, "type: palette\n")));
            let act = encode_act(pm);
            assert(act@ =~= act_bytes(pm.colors@));
            push_file(files, binary_file(stem_path(&stem, ".act"), act));
        },
        MemberContent::Flash(fm) => {
            push_file(files, text_file(yml, build_flash_yml(header.as_str(), fm)));
            push_file(files, binary_file(stem_path(&stem, ".swf"), fm.data.clone()));
        },
        MemberContent::FilmLoop(fl) => {
            push_file(files, text_file(yml, build_film_loop_yml(header.as_str(), fl)));
        },
        MemberContent::Shockwave3d { sections, w3d } => {
            let mut t = after_header(&header, "type: shockwave3d\n\n");
            t.append(sections.as_str());
            push_file(files, text_file(yml, t));
            push_file(files, binary_file(stem_path(&stem, ".w3d"), w3d.clone()));
        },
        MemberContent::Font => {
            push_file(files, text_file(yml, after_header(&header, "type: font\n")));
        },
        MemberContent::Other => {},
    }
    assert(files_view(files@) =~= start + member_files(*m, cast.members@));
}


/// Where the first file of `path` is at `i`, adding a note changes that
/// file alone.
proof fn lemma_attach_at(files: Seq<(Seq<char>, FileBody)>, path: Seq<char>, note: Seq<char>, i: int)
    requires
        0 <= i < files.len(),
        files[i].0 == path,
        forall|j: int| 0 <= j < i ==> files[j].0 != path,
    ensures
        attach_note(files, path, note) == match files[i].1 {
            FileBody::Text(t) => files.update(i, (path, FileBody::Text(with_final_newline(t) + note))),
            FileBody::Binary(_) => files,
        },
    decreases i,
{
    if i > 0 {
        let rest = files.drop_first();
        assert forall|j: int| 0 <= j < i - 1 implies #[trigger] rest[j].0 != path by {
            assert(rest[j] == files[j + 1]);
        }
        lemma_attach_at(rest, path, note, i - 1);
        assert(files[0].0 != path);
        match files[i].1 {
            FileBody::Text(t) => {
                assert(seq![files[0]] + rest.update(i - 1, (path, FileBody::Text(with_final_newline(t) + note)))
                    =~= files.update(i, (path, FileBody::Text(with_final_newline(t) + note))));
            },
            FileBody::Binary(_) => {
                assert(seq![files[0]] + rest =~= files);
            },
        }
    }
}

/// Where no file has the path, adding a note changes nothing.
proof fn lemma_attach_none(files: Seq<(Seq<char>, FileBody)>, path: Seq<char>, note: Seq<char>)
    requires
        forall|j: int| 0 <= j < files.len() ==> files[j].0 != path,
    ensures
        attach_note(files, path, note) == files,
    decreases files.len(),
{
    if files.len() > 0 {
        let rest = files.drop_first();
        assert forall|j: int| 0 <= j < rest.len() implies #[trigger] rest[j].0 != path by {
            assert(rest[j] == files[j + 1]);
        }
        lemma_attach_none(rest, path, note);
        assert(seq![files[0]] + rest =~= files);
    }
}

/// Adds `note` to the first file of this path; see `attach_note`.
fn attach_to_file(files: &mut Vec<ExportFile>, path: &String, note: &String)
    ensures
        files_view(final(files)@) == attach_note(files_view(old(files)@), path@, note@),
{
    let ghost start = files_view(files@);
    let mut i: usize = 0;
    while i < files.len()
        invariant
            i <= files.len(),
            files@ == old(files)@,
            start == files_view(files@),
            forall|j: int| 0 <= j < i ==> (#[trigger] start[j]).0 != path@,
        decreases files.len() - i,
    {
        if files[i].path == *path {
            proof {
                lemma_attach_at(start, path@, note@, i as int);
            }
            let replaced = match &files[i].content {
                FileContent::Text(t) => {
                    let mut text = t.clone();
                    let n = text.unicode_len();
                    if !(n > 0 && text.as_str().get_char(n - 1) == '\n') {
                        push_char(&mut text, '\n');
                    }
                    text.append(note.as_str());
                    Some(text)
                },
                FileContent::Binary(_) => None,
            };
            if let Some(text) = replaced {
                let f = ExportFile { path: path.clone(), content: FileContent::Text(text) };
                files.set(i, f);
                assert(files_view(files@) =~= start.update(i as int, file_view(f)));
            }
            return;
        }
        i = i + 1;
    }
    proof {
        lemma_attach_none(start, path@, note@);
    }
}

/// The note for the script kept under a member's slot; see
/// `member_script_note`.
fn script_note(script_type: &ScriptType, content: &MemberContent, script_id: u32) -> (r: String)
    ensures
        r@ == member_script_note(*script_type, *content, script_id),
{
    let mut t = String::from_str("\nmember_script:\n  script_type: ");
    t.append(script_type_name(script_type));
    t.append("\n  attached_to: ");
    t.append(member_type_name(content));
    t.append("\n  script_id: ");
    t.append(int_to_string(script_id as i64).as_str());
    push_char(&mut t, '\n');
    t
}

/// Writes a member; see `member_step`.
fn export_member(files: &mut Vec<ExportFile>, m: &ExportMember, cast: &ExportCast)
    requires
        image_fits(m.content),
    ensures
        files_view(final(files)@) == member_step(files_view(old(files)@), *m, cast.members@),
{
    push_member_files(files, m, cast);
    if let Some(sc) = &m.script {
        if !matches!(m.content, MemberContent::Script(_)) {
            let stem = member_file_stem(m.number, m.name.as_str());
            let id = match m.get_script_id() {
                Some(id) => id,
                None => m.number,
            };
            let note = script_note(&sc.script_type, &m.content, id);
            attach_to_file(files, &stem_path(&stem, ".yml"), &note);
            push_file(files, text_file(stem_path(&stem, ".ls"), sc.source.clone()));
        }
    }
}

/// Every bitmap image of the cast fits four times over in memory.
pub open spec fn images_fit(members: Seq<ExportMember>) -> bool {
    forall|i: int| 0 <= i < members.len() ==> image_fits(#[trigger] members[i].content)
}

/// What exporting a cast gives: its name, and its files (see `cast_files`)
/// with the members in slot order.
pub open spec fn exported_as(cast: ExportCast, r: (String, Vec<ExportFile>)) -> bool {
    &&& r.0@ == cast.name@
    &&& exists|order: Seq<int>|
        is_slot_order(order, cast.members@) && files_view(r.1@) == cast_files(
            cast.name@,
            order.map_values(|k: int| cast.members@[k]),
            cast.members@,
        )
}

/// Exports a cast: its name, and its files (see `cast_files`) with the
/// members in slot order.
pub fn export_cast(cast: &ExportCast) -> (r: (String, Vec<ExportFile>))
    requires
        images_fit(cast.members@),
    ensures
        exported_as(*cast, r),
{
    let mut files: Vec<ExportFile> = Vec::new();
    let mut cast_text = String::from_str("name: ");
    cast_text.append(yaml_string(cast.name.as_str()).as_str());
    push_char(&mut cast_text, '\n');
    assert(cast_text@ =~= "name: "@ + yaml_text(cast.name@) + seq!['\n']);
    let ghost before = files@;
    push_file(&mut files, text_file(String::from_str("_cast.yml"), cast_text));
    assert(files_view(before) =~= Seq::<(Seq<char>, FileBody)>::empty());
    let order = slot_order(&cast.members);
    let ghost ints = order@.map_values(|k: usize| k as int);
    let ghost ordered = ints.map_values(|k: int| cast.members@[k]);
    assert(files_view(files@) =~= cast_files(cast.name@, ordered.take(0), cast.members@));
    let mut i: usize = 0;
    while i < order.len()
        invariant
            i <= order.len(),
            ints == order@.map_values(|k: usize| k as int),
            ordered == ints.map_values(|k: int| cast.members@[k]),
            is_slot_order(ints, cast.members@),
            images_fit(cast.members@),
            files_view(files@) == cast_files(cast.name@, ordered.take(i as int), cast.members@),
        decreases order.len() - i,
    {
        let k = order[i];
        assert(ints[i as int] == k as int);
        let m = &cast.members[k];
        assert(ordered.take(i + 1).drop_last() =~= ordered.take(i as int));
        assert(ordered.take(i + 1).last() == *m);
        export_member(&mut files, m, cast);
        i = i + 1;
    }
    assert(ordered.take(order.len() as int) =~= ordered);
    (cast.name.clone(), files)
}


/// Adding a note leaves the number of files, and every file of another
/// path, as they were.
proof fn lemma_attach_keeps_others(files: Seq<(Seq<char>, FileBody)>, path: Seq<char>, note: Seq<char>, j: int)
    requires
        0 <= j < files.len(),
        files[j].0 != path,
    ensures
        attach_note(files, path, note).len() == files.len(),
        attach_note(files, path, note)[j] == files[j],
    decreases files.len(),
{
    if files[0].0 != path {
        let rest = files.drop_first();
        if j == 0 {
            lemma_attach_len(rest, path, note);
        } else {
            assert(rest[j - 1] == files[j]);
            lemma_attach_keeps_others(rest, path, note, j - 1);
        }
    }
}

/// The length of the files after adding a note.
proof fn lemma_attach_len(files: Seq<(Seq<char>, FileBody)>, path: Seq<char>, note: Seq<char>)
    ensures
        attach_note(files, path, note).len() == files.len(),
    decreases files.len(),
{
    if files.len() > 0 && files[0].0 != path {
        lemma_attach_len(files.drop_first(), path, note);
    }
}

/// A script source's path never is a YAML description's path.
proof fn lemma_source_is_not_yml(a: Seq<char>, b: Seq<char>)
    ensures
        a + ".ls"@ != b + ".yml"@,
{
    reveal_strlit(".ls");
    reveal_strlit(".yml");
    assert((a + ".ls"@).last() == 's');
    assert((b + ".yml"@).last() == 'l');
}

/// Every script the cast keeps under a member's slot is written out, as
/// the member's `.ls` file holding the script's source.
pub proof fn lemma_every_slot_script_exported(name: Seq<char>, ordered: Seq<ExportMember>, members: Seq<ExportMember>, i: int)
    requires
        0 <= i < ordered.len(),
        ordered[i].script is Some,
    ensures
        exists|j: int|
            0 <= j < cast_files(name, ordered, members).len() && #[trigger] cast_files(name, ordered, members)[j] == (
                member_stem_text(ordered[i].number, ordered[i].name@) + ".ls"@,
                FileBody::Text(ordered[i].script.unwrap().source@),
            ),
    decreases ordered.len(),
{
    let m = ordered.last();
    let prev = cast_files(name, ordered.drop_last(), members);
    let stem = member_stem_text(m.number, m.name@);
    let with_member = prev + member_files(m, members);
    let target = (
        member_stem_text(ordered[i].number, ordered[i].name@) + ".ls"@,
        FileBody::Text(ordered[i].script.unwrap().source@),
    );
    let all = cast_files(name, ordered, members);
    assert(all == member_step(prev, m, members));
    if i == ordered.len() - 1 {
        if m.content is Script {
            let mf = member_files(m, members);
            assert(mf[1] == target);
            assert(with_member[prev.len() as int + 1] == target);
            assert(all == with_member);
        } else {
            let id = match member_script_id(m.content) {
                Some(id) => id,
                None => m.number,
            };
            let attached = attach_note(with_member, stem + ".yml"@, member_script_note(m.script.unwrap().script_type, m.content, id));
            lemma_attach_len(with_member, stem + ".yml"@, member_script_note(m.script.unwrap().script_type, m.content, id));
            assert(all == attached.push(target));
            assert(all[attached.len() as int] == target);
        }
    } else {
        assert(ordered.drop_last()[i] == ordered[i]);
        lemma_every_slot_script_exported(name, ordered.drop_last(), members, i);
        let j = choose|j: int| 0 <= j < prev.len() && #[trigger] prev[j] == target;
        assert(with_member[j] == target);
        match m.script {
            Some(sc) if !(m.content is Script) => {
                let id = match member_script_id(m.content) {
                    Some(id) => id,
                    None => m.number,
                };
                let note = member_script_note(sc.script_type, m.content, id);
                lemma_source_is_not_yml(member_stem_text(ordered[i].number, ordered[i].name@), stem);
                lemma_attach_keeps_others(with_member, stem + ".yml"@, note, j);
                assert(all[j] == target);
            },
            _ => {
                assert(all[j] == target);
            },
        }
    }
}


/// The position of the first of the movie's casts with this number, if any.
pub open spec fn cast_position(casts: Seq<(u32, ExportCast)>, number: u32) -> Option<int>
    decreases casts.len(),
{
    if casts.len() == 0 {
        None
    } else if casts[0].0 == number {
        Some(0)
    } else {
        match cast_position(casts.drop_first(), number) {
            Some(i) => Some(i + 1),
            None => None,
        }
    }
}

proof fn lemma_cast_position(casts: Seq<(u32, ExportCast)>, number: u32, i: int)
    requires
        0 <= i <= casts.len(),
        forall|j: int| 0 <= j < i ==> casts[j].0 != number,
    ensures
        i < casts.len() && casts[i].0 == number ==> cast_position(casts, number) == Some(i),
        i == casts.len() ==> cast_position(casts, number) is None,
    decreases i,
{
    if i > 0 {
        lemma_cast_position(casts.drop_first(), number, i - 1);
    }
}

/// Exports the movie's cast with this number (see `export_cast`); none
/// where the movie has no cast of that number.
pub fn export_cast_number(casts: &Vec<(u32, ExportCast)>, cast_number: u32) -> (r: Option<(String, Vec<ExportFile>)>)
    requires
        forall|i: int| 0 <= i < casts.len() ==> images_fit(#[trigger] casts@[i].1.members@),
    ensures
        match cast_position(casts@, cast_number) {
            None => r is None,
            Some(i) => r matches Some(x) && exported_as(casts@[i].1, x),
        },
{
    let mut i: usize = 0;
    while i < casts.len()
        invariant
            i <= casts.len(),
            forall|j: int| 0 <= j < i ==> casts@[j].0 != cast_number,
            forall|j: int| 0 <= j < casts.len() ==> images_fit(#[trigger] casts@[j].1.members@),
        decreases casts.len() - i,
    {
        if casts[i].0 == cast_number {
            proof {
                lemma_cast_position(casts@, cast_number, i as int);
            }
            return Some(export_cast(&casts[i].1));
        }
        i = i + 1;
    }
    proof {
        lemma_cast_position(casts@, cast_number, i as int);
    }
    None
}

} // verus!
