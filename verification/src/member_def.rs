//! Building cast members from what a movie file's cast holds for them: the
//! member's info (name, comments, the id of its own script) and, by its
//! kind, the field settings with the styled text's first run, the button
//! type, the script's kind, the shape, the palette colors, a Flash member's
//! shape, or a bitmap's settings and decoded image.
use vstd::prelude::*;
use std::collections::HashMap;
use crate::cast_member::{
    ButtonMember, ButtonType, FieldInfo, FieldMember, PaletteMember, ScriptMember, ScriptType, ShapeInfo, ShapeMember,
    ShapeType,
};
use crate::datum::{CastMemberRef, ColorRef};

verus! {

/// The first formatting run of a styled text: its font (by id in the movie's
/// font map), size, line height, style bits (1 bold, 2 italic, 4 underline)
/// and color, 16 bits a channel.
#[derive(Clone, Copy, Debug)]
pub struct StxtRun {
    pub font_id: u16,
    pub font_size: u16,
    pub height: u16,
    pub style: u8,
    pub color_r: u16,
    pub color_g: u16,
    pub color_b: u16,
}

/// What a member's info holds: its name, its comments, and the id of the
/// script it carries (0 for none). A member without info has all empty.
pub struct MemberInfo {
    pub name: String,
    pub comments: String,
    pub script_id: u32,
}

/// What the cast holds for a member, by its kind.
pub enum MemberDef {
    /// A field: its settings, its text, and its styled text's first run.
    Text { info: FieldInfo, text: String, first_run: Option<StxtRun> },
    /// A button: its field settings; the big-endian 16-bit number at bytes
    /// 28 and 29 of its settings, where they are that long (the button type,
    /// counted from 1); and its text with the first run, where it has one.
    /// `script_exists` says whether the script context holds its script.
    Button { info: FieldInfo, type_raw: Option<u16>, text: Option<(String, Option<StxtRun>)>, script_exists: bool },
    /// A script: its kind, and whether the script context holds it.
    Script { script_type: ScriptType, has_script: bool },
    /// A shape.
    Shape { shape_info: ShapeInfo },
    /// A palette.
    Palette { colors: Vec<(u8, u8, u8)> },
    /// A Flash member: the shape its settings record, if they record one,
    /// and its settings read as a shape, where it has settings (a shape
    /// can be stored as a Flash member).
    Flash { shape_info: Option<ShapeInfo>, raw_shape: Option<ShapeInfo> },
    /// A bitmap: the palette id and registration point of its settings, the
    /// handle of its image in the player's bitmap store (decoded by the
    /// player from the member's image data), and whether the script context
    /// holds its own script.
    Bitmap { palette_id: i16, reg_point: (i16, i16), image_ref: u32, script_exists: bool },
    /// A member of another kind (sounds, film loops and Xtra members), which
    /// the player builds from the chunks it holds.
    Other,
}

/// A bitmap member: its image in the player's bitmap store, its
/// registration point and palette, and its own script.
pub struct BitmapMember {
    pub image_ref: u32,
    pub reg_point: (i16, i16),
    pub palette_id: i16,
    pub script_id: u32,
    pub member_script_ref: Option<CastMemberRef>,
}

/// What a member was built as.
pub enum MemberKind {
    Field(FieldMember),
    Button(ButtonMember),
    Script(ScriptMember),
    Shape(ShapeMember),
    Palette(PaletteMember),
    Bitmap(BitmapMember),
    /// A script the script context does not hold.
    Unknown,
    /// A member of a kind the player builds.
    Other,
}

/// A built member.
pub struct BuiltMember {
    pub number: u32,
    pub name: String,
    pub comments: String,
    pub kind: MemberKind,
    pub color: ColorRef,
    pub bg_color: ColorRef,
    pub reg_point: (i32, i32),
}

// ---- Fields from their settings and styled text ----

/// The style a run's bits name: the names of the bold, italic and
/// underline bits set, in that order, separated by spaces, or `plain`.
pub open spec fn style_text(style: u8) -> Seq<char> {
    let b = (style & 1) != 0;
    let i = (style & 2) != 0;
    let u = (style & 4) != 0;
    let parts = (if b { seq!["bold"@] } else { Seq::<Seq<char>>::empty() }) + (if i {
        seq!["italic"@]
    } else {
        Seq::<Seq<char>>::empty()
    }) + (if u { seq!["underline"@] } else { Seq::<Seq<char>>::empty() });
    if parts.len() == 0 {
        "plain"@
    } else {
        crate::text::seq_join(parts, " "@)
    }
}

fn style_string(style: u8) -> (r: String)
    ensures
        r@ == style_text(style),
{
    let mut parts: Vec<String> = Vec::new();
    if (style & 1) != 0 {
        parts.push(String::from_str("bold"));
    }
    if (style & 2) != 0 {
        parts.push(String::from_str("italic"));
    }
    if (style & 4) != 0 {
        parts.push(String::from_str("underline"));
    }
    let ghost b = (style & 1) != 0;
    let ghost i = (style & 2) != 0;
    let ghost u = (style & 4) != 0;
    let ghost expected = (if b { seq!["bold"@] } else { Seq::<Seq<char>>::empty() }) + (if i {
        seq!["italic"@]
    } else {
        Seq::<Seq<char>>::empty()
    }) + (if u { seq!["underline"@] } else { Seq::<Seq<char>>::empty() });
    assert(crate::text::views_of(parts@) =~= expected);
    if parts.len() == 0 {
        return String::from_str("plain");
    }
    crate::text::join_strings(&parts, " ")
}

/// The field a field's settings give (see `FieldMember::from_field_info`),
/// with this text and height, then the first run's font (named through the
/// font map where it has the id), size and line height where they are not
/// 0, style where its bits are not 0, and color (the high byte of each
/// channel), and the member's own script where its id is not 0.
pub open spec fn built_field(
    g: FieldMember,
    info: FieldInfo,
    text: Seq<char>,
    height: int,
    run: Option<StxtRun>,
    table: Map<u16, String>,
    cast_lib: u32,
    script_id: u32,
) -> bool {
    &&& g.text@ == text
    &&& g.alignment@ == info.alignment@
    &&& g.word_wrap == info.word_wrap
    &&& g.font@ == (match run {
        Some(r) => if table.contains_key(r.font_id) {
            table[r.font_id]@
        } else {
            info.font_name@
        },
        None => info.font_name@,
    })
    &&& g.font_style@ == (match run {
        Some(r) => if r.style != 0 {
            style_text(r.style)
        } else {
            "plain"@
        },
        None => "plain"@,
    })
    &&& g.font_size == (match run {
        Some(r) => if r.font_size > 0 {
            r.font_size
        } else {
            12
        },
        None => 12,
    })
    &&& g.font_id == (match run {
        Some(r) => Some(r.font_id),
        None => None,
    })
    &&& g.text_height == info.text_height
    &&& g.fixed_line_space == (match run {
        Some(r) => if r.height > 0 {
            r.height
        } else {
            0
        },
        None => 0,
    })
    &&& g.top_spacing == info.scroll as i16
    &&& g.box_type@ == info.box_type@
    &&& !g.anti_alias
    &&& g.width == info.width
    &&& g.height == height
    &&& g.rect_left == info.rect_left
    &&& g.rect_top == info.rect_top
    &&& g.rect_right == info.rect_right
    &&& g.rect_bottom == info.rect_bottom
    &&& g.auto_tab == info.auto_tab
    &&& g.editable == info.editable
    &&& g.border == info.border
    &&& g.margin == info.margin
    &&& g.box_drop_shadow == info.box_drop_shadow
    &&& g.drop_shadow == info.text_shadow
    &&& g.scroll_top == info.scroll
    &&& !g.hilite
    &&& g.fore_color == (match run {
        Some(r) => Some(ColorRef::Rgb((r.color_r >> 8u16) as u8, (r.color_g >> 8u16) as u8, (r.color_b >> 8u16) as u8)),
        None => None,
    })
    &&& g.back_color == Some(ColorRef::Rgb(info.bg_color_rgb.0, info.bg_color_rgb.1, info.bg_color_rgb.2))
    &&& g.sel_start == 0 && g.sel_end == 0 && g.sel_anchor == 0
    &&& !g.kerning
    &&& g.kerning_threshold == 14
    &&& !g.use_hypertext_styles
    &&& g.anti_alias_type@ == "AutoAlias"@
    &&& g.script_id == (if script_id > 0 { script_id } else { 0 })
    &&& g.member_script_ref == (if script_id > 0 {
        Some(CastMemberRef { cast_lib: cast_lib as i32, cast_member: script_id as i32 })
    } else {
        None
    })
}

/// Applies a styled text's first run to a field.
fn apply_first_run(f: &mut FieldMember, run: &StxtRun, font_table: &HashMap<u16, String>)
    ensures
        final(f).fore_color == Some(
            ColorRef::Rgb((run.color_r >> 8u16) as u8, (run.color_g >> 8u16) as u8, (run.color_b >> 8u16) as u8),
        ),
        final(f).font_id == Some(run.font_id),
        final(f).font@ == (if font_table@.contains_key(run.font_id) {
            font_table@[run.font_id]@
        } else {
            old(f).font@
        }),
        final(f).font_size == (if run.font_size > 0 { run.font_size } else { old(f).font_size }),
        final(f).fixed_line_space == (if run.height > 0 { run.height } else { old(f).fixed_line_space }),
        final(f).font_style@ == (if run.style != 0 { style_text(run.style) } else { old(f).font_style@ }),
        *final(f) == (FieldMember {
            fore_color: final(f).fore_color,
            font_id: final(f).font_id,
            font: final(f).font,
            font_size: final(f).font_size,
            fixed_line_space: final(f).fixed_line_space,
            font_style: final(f).font_style,
            ..*old(f)
        }),
{
    f.fore_color = Some(
        ColorRef::Rgb((run.color_r >> 8u16) as u8, (run.color_g >> 8u16) as u8, (run.color_b >> 8u16) as u8),
    );
    f.font_id = Some(run.font_id);
    if let Some(name) = font_table.get(&run.font_id) {
        f.font = name.clone();
    }
    if run.font_size > 0 {
        f.font_size = run.font_size;
    }
    if run.height > 0 {
        f.fixed_line_space = run.height;
    }
    if run.style != 0 {
        f.font_style = style_string(run.style);
    }
}

/// Sets the member's own script where its id is not 0.
fn attach_script(f: &mut FieldMember, cast_lib: u32, script_id: u32)
    ensures
        final(f).script_id == (if script_id > 0 { script_id } else { old(f).script_id }),
        final(f).member_script_ref == (if script_id > 0 {
            Some(CastMemberRef { cast_lib: cast_lib as i32, cast_member: script_id as i32 })
        } else {
            old(f).member_script_ref
        }),
        *final(f) == (FieldMember {
            script_id: final(f).script_id,
            member_script_ref: final(f).member_script_ref,
            ..*old(f)
        }),
{
    if script_id > 0 {
        f.script_id = script_id;
        f.member_script_ref = Some(
            CastMemberRef { cast_lib: #[verifier::truncate] (cast_lib as i32), cast_member: #[verifier::truncate] (script_id as i32) },
        );
    }
}

/// A field member from its settings, text and first run; see `built_field`.
pub fn field_member_from_def(
    info: &FieldInfo,
    text: &String,
    first_run: Option<StxtRun>,
    font_table: &HashMap<u16, String>,
    cast_lib: u32,
    script_id: u32,
) -> (f: FieldMember)
    requires
        info.text_height + 2 * info.border + 2 * info.margin <= u16::MAX,
    ensures
        built_field(
            f,
            *info,
            text@,
            info.text_height + 2 * info.border + 2 * info.margin,
            first_run,
            font_table@,
            cast_lib,
            script_id,
        ),
{
    let mut f = FieldMember::from_field_info(info);
    f.text = text.clone();
    if let Some(run) = &first_run {
        apply_first_run(&mut f, run, font_table);
    }
    attach_script(&mut f, cast_lib, script_id);
    f
}

/// The button a button's settings give: its field as for a field member,
/// but as high as its rect, with its text and first run where it has them;
/// its type from the number stored (counted from 1, 1 where none is
/// stored); not lit; and its own script where its id is not 0.
pub open spec fn built_button(
    b: ButtonMember,
    info: FieldInfo,
    type_raw: Option<u16>,
    text: Option<(Seq<char>, Option<StxtRun>)>,
    table: Map<u16, String>,
    cast_lib: u32,
    script_id: u32,
) -> bool {
    let raw = match type_raw {
        Some(t) => t,
        None => 1u16,
    };
    let t = ((raw - 1) % 65536) as u16;
    &&& built_field(
        b.field,
        info,
        match text {
            Some((s, _)) => s,
            None => ""@,
        },
        info.height as int,
        match text {
            Some((_, run)) => run,
            None => None,
        },
        table,
        cast_lib,
        0,
    )
    &&& b.button_type == (if t == 1 {
        ButtonType::CheckBox
    } else if t == 2 {
        ButtonType::RadioButton
    } else {
        ButtonType::PushButton
    })
    &&& !b.hilite
    &&& b.script_id == script_id
    &&& b.member_script_ref == (if script_id > 0 {
        Some(CastMemberRef { cast_lib: cast_lib as i32, cast_member: script_id as i32 })
    } else {
        None
    })
}

/// A button member from its settings; see `built_button`.
pub fn button_member_from_def(
    info: &FieldInfo,
    type_raw: Option<u16>,
    text: &Option<(String, Option<StxtRun>)>,
    font_table: &HashMap<u16, String>,
    cast_lib: u32,
    script_id: u32,
) -> (b: ButtonMember)
    requires
        info.text_height + 2 * info.border + 2 * info.margin <= u16::MAX,
    ensures
        built_button(
            b,
            *info,
            type_raw,
            match *text {
                Some((s, r)) => Some((s@, r)),
                None => None,
            },
            font_table@,
            cast_lib,
            script_id,
        ),
{
    let mut f = FieldMember::from_field_info(info);
    f.width = info.width;
    f.height = info.height;
    let raw: u16 = match type_raw {
        Some(t) => t,
        None => 1,
    };
    let button_type = ButtonType::from_raw(raw.wrapping_sub(1));
    if let Some((s, run)) = text {
        f.text = s.clone();
        if let Some(run) = run {
            apply_first_run(&mut f, run, font_table);
        }
    }
    let member_script_ref = if script_id > 0 {
        Some(CastMemberRef { cast_lib: #[verifier::truncate] (cast_lib as i32), cast_member: #[verifier::truncate] (script_id as i32) })
    } else {
        None
    };
    proof {
        assert(raw.wrapping_sub(1) == ((raw - 1) % 65536) as u16) by (bit_vector);
    }
    ButtonMember { field: f, button_type, hilite: false, script_id, member_script_ref }
}

// ---- Members ----

/// The member built from what the cast holds for it: a field or a button
/// from its settings; a script where the script context holds it (else an
/// unknown member); a shape, or a Flash member that holds a shape, as that
/// shape with its own script where its id is not 0; a palette with its
/// colors; a bitmap with its image, registration point and palette id (see
/// `adjusted_palette_id`) and its own script; other kinds are left to the
/// player. The member keeps its info's name and comments, has color 255,
/// the bitmap's registration point for a bitmap ((0, 0) otherwise), and,
/// for a field, its background color (palette color 0 otherwise).
pub open spec fn built_member(
    m: BuiltMember,
    cast_lib: u32,
    number: u32,
    info: MemberInfo,
    def: MemberDef,
    table: Map<u16, String>,
    palette_id_offset: i16,
) -> bool {
    &&& m.number == number
    &&& m.name@ == info.name@
    &&& m.comments@ == info.comments@
    &&& m.color == ColorRef::PaletteIndex(255)
    &&& m.reg_point == match def {
        MemberDef::Bitmap { reg_point, .. } => (reg_point.0 as i32, reg_point.1 as i32),
        _ => (0i32, 0i32),
    }
    &&& match def {
        MemberDef::Text { info: fi, text, first_run } => m.kind matches MemberKind::Field(f) && built_field(
            f,
            fi,
            text@,
            fi.text_height + 2 * fi.border + 2 * fi.margin,
            first_run,
            table,
            cast_lib,
            info.script_id,
        ) && m.bg_color == f.back_color.unwrap(),
        MemberDef::Button { info: fi, type_raw, text, script_exists: _ } => m.kind matches MemberKind::Button(b)
            && built_button(
            b,
            fi,
            type_raw,
            match text {
                Some((s, r)) => Some((s@, r)),
                None => None,
            },
            table,
            cast_lib,
            info.script_id,
        ) && m.bg_color == ColorRef::PaletteIndex(0),
        MemberDef::Script { script_type, has_script } => (if has_script {
            m.kind matches MemberKind::Script(s) && s.script_id == info.script_id && s.script_type == script_type
                && s.name@ == info.name@
        } else {
            m.kind is Unknown
        }) && m.bg_color == ColorRef::PaletteIndex(0),
        MemberDef::Shape { shape_info } => m.kind matches MemberKind::Shape(s) && built_shape(
            s,
            shape_info,
            cast_lib,
            info.script_id,
        ) && m.bg_color == ColorRef::PaletteIndex(0),
        MemberDef::Palette { colors } => m.kind matches MemberKind::Palette(p) && p.colors@ == colors@
            && m.bg_color == ColorRef::PaletteIndex(0),
        MemberDef::Flash { shape_info, raw_shape } => m.bg_color == ColorRef::PaletteIndex(0) && match flash_shape(
            shape_info,
            raw_shape,
        ) {
            Some(si) => m.kind matches MemberKind::Shape(s) && built_shape(s, si, cast_lib, info.script_id),
            None => m.kind is Other,
        },
        MemberDef::Bitmap { palette_id, reg_point, image_ref, script_exists: _ } => m.kind matches MemberKind::Bitmap(b)
            && b.image_ref == image_ref && b.reg_point == reg_point && b.palette_id == adjusted_palette_id(
            palette_id,
            palette_id_offset,
        ) && b.script_id == info.script_id && b.member_script_ref == own_script_ref(cast_lib, info.script_id)
            && m.bg_color == ColorRef::PaletteIndex(0),
        MemberDef::Other => m.kind is Other && m.bg_color == ColorRef::PaletteIndex(0),
    }
}

/// Whether building the member runs without stopping the player: a
/// field's or button's height fits 16 bits, and a button's or bitmap's own
/// script is in the script context.
pub open spec fn def_buildable(info: MemberInfo, def: MemberDef) -> bool {
    match def {
        MemberDef::Text { info: fi, .. } => fi.text_height + 2 * fi.border + 2 * fi.margin <= u16::MAX,
        MemberDef::Button { info: fi, script_exists, .. } => fi.text_height + 2 * fi.border + 2 * fi.margin
            <= u16::MAX && (info.script_id > 0 ==> script_exists),
        MemberDef::Bitmap { script_exists, .. } => info.script_id > 0 ==> script_exists,
        _ => true,
    }
}

fn copy_colors(c: &Vec<(u8, u8, u8)>) -> (r: Vec<(u8, u8, u8)>)
    ensures
        r@ == c@,
{
    let mut r: Vec<(u8, u8, u8)> = Vec::new();
    let mut i: usize = 0;
    while i < c.len()
        invariant
            i <= c.len(),
            r@ == c@.take(i as int),
        decreases c.len() - i,
    {
        r.push(c[i]);
        i = i + 1;
        assert(r@ =~= c@.take(i as int));
    }
    assert(c@.take(c.len() as int) =~= c@);
    r
}

/// A member's own script, where its id is not 0.
pub open spec fn own_script_ref(cast_lib: u32, script_id: u32) -> Option<CastMemberRef> {
    if script_id > 0 {
        Some(CastMemberRef { cast_lib: cast_lib as i32, cast_member: script_id as i32 })
    } else {
        None
    }
}

fn own_script_ref_exec(cast_lib: u32, script_id: u32) -> (r: Option<CastMemberRef>)
    ensures
        r == own_script_ref(cast_lib, script_id),
{
    if script_id > 0 {
        Some(
            CastMemberRef {
                cast_lib: #[verifier::truncate] (cast_lib as i32),
                cast_member: #[verifier::truncate] (script_id as i32),
            },
        )
    } else {
        None
    }
}

/// A shape member with this shape and its own script.
pub open spec fn built_shape(s: ShapeMember, shape_info: ShapeInfo, cast_lib: u32, script_id: u32) -> bool {
    &&& s.shape_info == shape_info
    &&& s.script_id == script_id
    &&& s.member_script_ref == own_script_ref(cast_lib, script_id)
}

fn shape_member(shape_info: ShapeInfo, cast_lib: u32, script_id: u32) -> (s: ShapeMember)
    ensures
        built_shape(s, shape_info, cast_lib, script_id),
{
    ShapeMember { shape_info, script_id, member_script_ref: own_script_ref_exec(cast_lib, script_id) }
}

/// Whether a shape type is one that is drawn: a rect, an oval, a rounded
/// rect or a line.
pub open spec fn is_drawn_shape(t: ShapeType) -> bool {
    t is Rect || t is Oval || t is OvalRect || t is Line
}

/// The shape a Flash member stands for: the shape its settings record, else
/// its settings read as a shape where that is a drawn shape; none where it
/// is Flash content.
pub open spec fn flash_shape(shape_info: Option<ShapeInfo>, raw_shape: Option<ShapeInfo>) -> Option<ShapeInfo> {
    match shape_info {
        Some(si) => Some(si),
        None => match raw_shape {
            Some(rs) => if is_drawn_shape(rs.shape_type) {
                Some(rs)
            } else {
                None
            },
            None => None,
        },
    }
}

fn flash_shape_exec(shape_info: &Option<ShapeInfo>, raw_shape: &Option<ShapeInfo>) -> (r: Option<ShapeInfo>)
    ensures
        r == flash_shape(*shape_info, *raw_shape),
{
    match shape_info {
        Some(si) => Some(*si),
        None => match raw_shape {
            Some(rs) => match rs.shape_type {
                ShapeType::Rect | ShapeType::Oval | ShapeType::OvalRect | ShapeType::Line => Some(*rs),
                _ => None,
            },
            None => None,
        },
    }
}

/// A bitmap's palette id: moved down by the cast's palette offset where it
/// is positive and the offset is not 0 (wrapping at 16 bits).
pub open spec fn adjusted_palette_id(palette_id: i16, offset: i16) -> i16 {
    if palette_id > 0 && offset != 0 {
        palette_id.wrapping_sub(offset)
    } else {
        palette_id
    }
}

/// Builds a cast member from what the cast holds for it; see
/// `built_member`.
pub fn cast_member_from_def(
    cast_lib: u32,
    number: u32,
    info: &MemberInfo,
    def: &MemberDef,
    font_table: &HashMap<u16, String>,
    palette_id_offset: i16,
) -> (m: BuiltMember)
    requires
        def_buildable(*info, *def),
    ensures
        built_member(m, cast_lib, number, *info, *def, font_table@, palette_id_offset),
{
    let mut bg_color = ColorRef::PaletteIndex(0);
    let reg_point: (i32, i32) = match def {
        MemberDef::Bitmap { reg_point: (x, y), .. } => (*x as i32, *y as i32),
        _ => (0, 0),
    };
    let kind = match def {
        MemberDef::Text { info: fi, text, first_run } => {
            let f = field_member_from_def(fi, text, *first_run, font_table, cast_lib, info.script_id);
            bg_color = match f.back_color {
                Some(c) => c,
                None => ColorRef::PaletteIndex(0),
            };
            MemberKind::Field(f)
        },
        MemberDef::Button { info: fi, type_raw, text, script_exists: _ } => MemberKind::Button(
            button_member_from_def(fi, *type_raw, text, font_table, cast_lib, info.script_id),
        ),
        MemberDef::Script { script_type, has_script } => {
            if *has_script {
                MemberKind::Script(
                    ScriptMember { script_id: info.script_id, script_type: *script_type, name: info.name.clone() },
                )
            } else {
                MemberKind::Unknown
            }
        },
        MemberDef::Shape { shape_info } => MemberKind::Shape(shape_member(*shape_info, cast_lib, info.script_id)),
        MemberDef::Palette { colors } => MemberKind::Palette(PaletteMember { colors: copy_colors(colors) }),
        MemberDef::Flash { shape_info, raw_shape } => match flash_shape_exec(shape_info, raw_shape) {
            Some(si) => MemberKind::Shape(shape_member(si, cast_lib, info.script_id)),
            None => MemberKind::Other,
        },
        MemberDef::Bitmap { palette_id, reg_point, image_ref, script_exists: _ } => {
            let palette_id = if *palette_id > 0 && palette_id_offset != 0 {
                palette_id.wrapping_sub(palette_id_offset)
            } else {
                *palette_id
            };
            MemberKind::Bitmap(
                BitmapMember {
                    image_ref: *image_ref,
                    reg_point: *reg_point,
                    palette_id,
                    script_id: info.script_id,
                    member_script_ref: own_script_ref_exec(cast_lib, info.script_id),
                },
            )
        },
        MemberDef::Other => MemberKind::Other,
    };
    BuiltMember {
        number,
        name: info.name.clone(),
        comments: info.comments.clone(),
        kind,
        color: ColorRef::PaletteIndex(255),
        bg_color,
        reg_point,
    }
}

} // verus!
