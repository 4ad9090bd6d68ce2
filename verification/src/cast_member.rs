//! Cast members: fields, buttons, palettes, Flash members and the type ids
//! scripts see.
use vstd::prelude::*;
use vstd::arithmetic::power2::{pow2, lemma2_to64, lemma_pow2_strictly_increases, lemma_pow2_unfold};
use crate::datum::{CastMemberRef, ColorRef};
use crate::export::Bitmap;

verus! {

/// Media a member can be made from: a field, a bitmap with its
/// registration point, or a palette.
pub enum Media {
    Field(FieldMember),
    Bitmap { bitmap: Bitmap, reg_point: (i16, i16) },
    Palette(PaletteMember),
}

/// A field (editable text) cast member.
#[derive(Clone, Default)]
pub struct FieldMember {
    pub text: String,
    pub alignment: String,
    pub word_wrap: bool,
    pub font: String,
    pub font_style: String,
    pub font_size: u16,
    /// Font id of the styled-text run, for lookup by id.
    pub font_id: Option<u16>,
    /// Height of the text area.
    pub text_height: u16,
    pub fixed_line_space: u16,
    pub top_spacing: i16,
    pub box_type: String,
    pub anti_alias: bool,
    pub width: u16,
    pub height: u16,
    pub rect_left: i16,
    pub rect_top: i16,
    pub rect_right: i16,
    pub rect_bottom: i16,
    /// Tabbing order follows sprite numbers rather than stage position.
    pub auto_tab: bool,
    pub editable: bool,
    pub border: u16,
    pub margin: u16,
    pub box_drop_shadow: u16,
    pub drop_shadow: u16,
    pub scroll_top: u16,
    pub hilite: bool,
    pub fore_color: Option<ColorRef>,
    pub back_color: Option<ColorRef>,
    /// Selection: `sel_start <= sel_end`; equal values are a caret.
    /// `sel_anchor` is where a drag or shift-selection started.
    pub sel_start: i32,
    pub sel_end: i32,
    pub sel_anchor: i32,
    pub kerning: bool,
    pub kerning_threshold: u16,
    pub use_hypertext_styles: bool,
    pub anti_alias_type: String,
    /// The member's own script, if it has one.
    pub script_id: u32,
    pub member_script_ref: Option<CastMemberRef>,
}

/// What a field member is made from: the values the field chunk's decoder
/// gives for it.
pub struct FieldInfo {
    /// `"left"`, `"center"` or `"right"`.
    pub alignment: String,
    pub word_wrap: bool,
    pub font_name: String,
    /// `"adjust"`, `"scroll"`, `"fixed"` or `"limit"`.
    pub box_type: String,
    /// Width of the field's rect.
    pub width: u16,
    /// Height of the field's rect.
    pub height: u16,
    pub auto_tab: bool,
    pub editable: bool,
    /// Background color, 8 bits a channel.
    pub bg_color_rgb: (u8, u8, u8),
    pub text_height: u16,
    pub scroll: u16,
    pub border: u8,
    pub margin: u8,
    pub box_drop_shadow: u8,
    pub text_shadow: u8,
    pub rect_left: i16,
    pub rect_top: i16,
    pub rect_right: i16,
    pub rect_bottom: i16,
}

/// The UTF-8 length of a text as a 32-bit integer, as the player counts it.
pub open spec fn byte_len(s: Seq<char>) -> i32 {
    (vstd::utf8::encode_utf8(s).len() as usize) as i32
}

/// Whether the caret was at the end of the text: no selection, and the caret
/// at or past the text's length.
pub open spec fn caret_at_end(sel_start: i32, sel_end: i32, old_len: i32) -> bool {
    sel_start == sel_end && sel_end >= old_len
}

/// Where the caret goes when the text changes: to the new end if it was at
/// the old end, else where it was, clamped to the new text.
pub open spec fn caret_after(sel_start: i32, sel_end: i32, old_len: i32, new_len: i32) -> i32 {
    if caret_at_end(sel_start, sel_end, old_len) {
        new_len
    } else if sel_end < 0 {
        0
    } else if sel_end > new_len {
        new_len
    } else {
        sel_end
    }
}


/// After `set_text_preserving_caret` the caret lies within the new text.
pub proof fn lemma_caret_inside_text(sel_start: i32, sel_end: i32, old_len: i32, new_len: i32)
    requires
        new_len >= 0,
    ensures
        0 <= caret_after(sel_start, sel_end, old_len, new_len) <= new_len,
{
}

/// The field as `FieldMember::new` makes it, apart from its strings.
pub open spec fn is_default_field(f: FieldMember) -> bool {
    &&& f.word_wrap
    &&& f.font_size == 12
    &&& f.font_id is None
    &&& f.text_height == 100
    &&& f.fixed_line_space == 0
    &&& f.top_spacing == 0
    &&& !f.anti_alias
    &&& f.width == 100
    &&& f.height == 100
    &&& f.rect_left == 0 && f.rect_top == 0 && f.rect_right == 100 && f.rect_bottom == 100
    &&& !f.auto_tab
    &&& !f.editable
    &&& f.border == 0 && f.margin == 0 && f.box_drop_shadow == 0 && f.drop_shadow == 0
    &&& f.scroll_top == 0
    &&& !f.hilite
    &&& f.fore_color is None && f.back_color is None
    &&& f.sel_start == 0 && f.sel_end == 0 && f.sel_anchor == 0
    &&& !f.kerning
    &&& f.kerning_threshold == 14
    &&& !f.use_hypertext_styles
    &&& f.script_id == 0
    &&& f.member_script_ref is None
}

impl FieldMember {
    /// An empty, left-aligned, word-wrapped 12-point Arial field, 100 by 100.
    pub fn new() -> (f: FieldMember)
        ensures
            is_default_field(f),
            f.text@ == ""@,
            f.alignment@ == "left"@,
            f.font@ == "Arial"@,
            f.font_style@ == "plain"@,
            f.box_type@ == "adjust"@,
            f.anti_alias_type@ == "AutoAlias"@,
    {
        FieldMember {
            text: String::from_str(""),
            alignment: String::from_str("left"),
            word_wrap: true,
            font: String::from_str("Arial"),
            font_style: String::from_str("plain"),
            font_size: 12,
            font_id: None,
            text_height: 100,
            fixed_line_space: 0,
            top_spacing: 0,
            box_type: String::from_str("adjust"),
            anti_alias: false,
            width: 100,
            height: 100,
            rect_left: 0,
            rect_top: 0,
            rect_right: 100,
            rect_bottom: 100,
            auto_tab: false,
            editable: false,
            border: 0,
            margin: 0,
            box_drop_shadow: 0,
            drop_shadow: 0,
            scroll_top: 0,
            hilite: false,
            fore_color: None,
            back_color: None,
            sel_start: 0,
            sel_end: 0,
            sel_anchor: 0,
            kerning: false,
            kerning_threshold: 14,
            use_hypertext_styles: false,
            anti_alias_type: String::from_str("AutoAlias"),
            script_id: 0,
            member_script_ref: None,
        }
    }

    /// Replaces the text and puts the caret (with no selection) at the new
    /// end if it was at the old end, else at its offset clamped to the new
    /// text. Lengths are UTF-8 byte counts.
    pub fn set_text_preserving_caret(&mut self, new_text: String)
        requires
            !caret_at_end(old(self).sel_start, old(self).sel_end, byte_len(old(self).text@)) ==> byte_len(
                new_text@,
            ) >= 0,
        ensures
            final(self).text@ == new_text@,
            final(self).sel_start == caret_after(
                old(self).sel_start,
                old(self).sel_end,
                byte_len(old(self).text@),
                byte_len(new_text@),
            ),
            *final(self) == (FieldMember {
                text: final(self).text,
                sel_start: final(self).sel_start,
                sel_end: final(self).sel_start,
                sel_anchor: final(self).sel_start,
                ..*old(self)
            }),
    {
        let old_len = self.text.as_str().len() as i32;
        let was_at_end = self.sel_start == self.sel_end && self.sel_end >= old_len;
        self.text = new_text;
        let new_len = self.text.as_str().len() as i32;
        let caret = if was_at_end {
            new_len
        } else if self.sel_end < 0 {
            0
        } else if self.sel_end > new_len {
            new_len
        } else {
            self.sel_end
        };
        self.sel_start = caret;
        self.sel_end = caret;
        self.sel_anchor = caret;
    }

    /// The field member a field chunk describes, with empty text; its
    /// height is the text height plus twice the border and twice the margin.
    pub fn from_field_info(field_info: &FieldInfo) -> (f: FieldMember)
        requires
            field_info.text_height + 2 * field_info.border + 2 * field_info.margin <= u16::MAX,
        ensures
            f.text@ == ""@,
            f.alignment@ == field_info.alignment@,
            f.word_wrap == field_info.word_wrap,
            f.font@ == field_info.font_name@,
            f.font_style@ == "plain"@,
            f.font_size == 12,
            f.font_id is None,
            f.text_height == field_info.text_height,
            f.fixed_line_space == 0,
            f.top_spacing == field_info.scroll as i16,
            f.box_type@ == field_info.box_type@,
            !f.anti_alias,
            f.width == field_info.width,
            f.height == field_info.text_height + 2 * field_info.border + 2 * field_info.margin,
            f.rect_left == field_info.rect_left,
            f.rect_top == field_info.rect_top,
            f.rect_right == field_info.rect_right,
            f.rect_bottom == field_info.rect_bottom,
            f.auto_tab == field_info.auto_tab,
            f.editable == field_info.editable,
            f.border == field_info.border,
            f.margin == field_info.margin,
            f.box_drop_shadow == field_info.box_drop_shadow,
            f.drop_shadow == field_info.text_shadow,
            f.scroll_top == field_info.scroll,
            !f.hilite,
            f.fore_color is None,
            f.back_color == Some(
                ColorRef::Rgb(field_info.bg_color_rgb.0, field_info.bg_color_rgb.1, field_info.bg_color_rgb.2),
            ),
            f.sel_start == 0 && f.sel_end == 0 && f.sel_anchor == 0,
            !f.kerning,
            f.kerning_threshold == 14,
            !f.use_hypertext_styles,
            f.anti_alias_type@ == "AutoAlias"@,
            f.script_id == 0,
            f.member_script_ref is None,
    {
        let (bg_r, bg_g, bg_b) = field_info.bg_color_rgb;
        FieldMember {
            text: String::from_str(""),
            alignment: field_info.alignment.clone(),
            word_wrap: field_info.word_wrap,
            font: field_info.font_name.clone(),
            font_style: String::from_str("plain"),
            font_size: 12,
            font_id: None,
            text_height: field_info.text_height,
            fixed_line_space: 0,
            top_spacing: field_info.scroll as i16,
            box_type: field_info.box_type.clone(),
            anti_alias: false,
            width: field_info.width,
            height: field_info.text_height + 2 * field_info.border as u16 + 2 * field_info.margin as u16,
            rect_left: field_info.rect_left,
            rect_top: field_info.rect_top,
            rect_right: field_info.rect_right,
            rect_bottom: field_info.rect_bottom,
            auto_tab: field_info.auto_tab,
            editable: field_info.editable,
            border: field_info.border as u16,
            margin: field_info.margin as u16,
            box_drop_shadow: field_info.box_drop_shadow as u16,
            drop_shadow: field_info.text_shadow as u16,
            scroll_top: field_info.scroll,
            hilite: false,
            fore_color: None,
            back_color: Some(ColorRef::Rgb(bg_r, bg_g, bg_b)),
            sel_start: 0,
            sel_end: 0,
            sel_anchor: 0,
            kerning: false,
            kerning_threshold: 14,
            use_hypertext_styles: false,
            anti_alias_type: String::from_str("AutoAlias"),
            script_id: 0,
            member_script_ref: None,
        }
    }
}

/// The text of a text member with its selection: what a `put` into the
/// member changes.
pub struct EditableText {
    pub text: String,
    pub sel_start: i32,
    pub sel_end: i32,
    pub sel_anchor: i32,
}

impl EditableText {
    /// Replaces the text and moves the caret as a field's
    /// `set_text_preserving_caret` does.
    pub fn set_text_preserving_caret(&mut self, new_text: String)
        requires
            !caret_at_end(old(self).sel_start, old(self).sel_end, byte_len(old(self).text@)) ==> byte_len(
                new_text@,
            ) >= 0,
        ensures
            final(self).text@ == new_text@,
            final(self).sel_start == caret_after(
                old(self).sel_start,
                old(self).sel_end,
                byte_len(old(self).text@),
                byte_len(new_text@),
            ),
            final(self).sel_end == final(self).sel_start,
            final(self).sel_anchor == final(self).sel_start,
    {
        let old_len = self.text.as_str().len() as i32;
        let was_at_end = self.sel_start == self.sel_end && self.sel_end >= old_len;
        self.text = new_text;
        let new_len = self.text.as_str().len() as i32;
        let caret = if was_at_end {
            new_len
        } else if self.sel_end < 0 {
            0
        } else if self.sel_end > new_len {
            new_len
        } else {
            self.sel_end
        };
        self.sel_start = caret;
        self.sel_end = caret;
        self.sel_anchor = caret;
    }
}

/// The kind of a button member.
#[derive(Clone, Copy, Debug, PartialEq, Eq, Structural)]
pub enum ButtonType {
    PushButton,
    CheckBox,
    RadioButton,
}

/// The symbol name of a button type.
pub open spec fn button_symbol(t: ButtonType) -> Seq<char> {
    match t {
        ButtonType::PushButton => "pushButton"@,
        ButtonType::CheckBox => "checkBox"@,
        ButtonType::RadioButton => "radioButton"@,
    }
}

impl ButtonType {
    /// The button type stored as 1 or 2; anything else is a push button.
    pub fn from_raw(value: u16) -> (t: ButtonType)
        ensures
            t == (if value == 1 {
                ButtonType::CheckBox
            } else if value == 2 {
                ButtonType::RadioButton
            } else {
                ButtonType::PushButton
            }),
    {
        match value {
            1 => ButtonType::CheckBox,
            2 => ButtonType::RadioButton,
            _ => ButtonType::PushButton,
        }
    }

    /// The symbol name Lingo uses for the button type.
    pub fn symbol_string(&self) -> (s: &str)
        ensures
            s@ == button_symbol(*self),
    {
        match self {
            ButtonType::PushButton => "pushButton",
            ButtonType::CheckBox => "checkBox",
            ButtonType::RadioButton => "radioButton",
        }
    }
}

/// A button member: a field with a button type.
#[derive(Clone)]
pub struct ButtonMember {
    pub field: FieldMember,
    pub button_type: ButtonType,
    pub hilite: bool,
    pub script_id: u32,
    pub member_script_ref: Option<CastMemberRef>,
}

/// What a script is: a movie script, a score (behavior) script, a cast
/// member's own script, a parent script, or one of another kind.
#[derive(Clone, Copy, Debug, PartialEq, Eq, Structural)]
pub enum ScriptType {
    Movie,
    Score,
    Member,
    Parent,
    Unknown,
}

/// A script member: the script's id, what kind of script it is, and its name.
#[derive(Clone)]
pub struct ScriptMember {
    pub script_id: u32,
    pub script_type: ScriptType,
    pub name: String,
}

/// A tab stop of a text member: `"left"`, `"center"` or `"right"`, at a
/// pixel position from the left edge.
#[derive(Clone, Debug)]
pub struct TabStop {
    pub tab_type: String,
    pub position: i32,
}

/// A palette member: its colors as RGB triples.
#[derive(Clone, Debug)]
pub struct PaletteMember {
    pub colors: Vec<(u8, u8, u8)>,
}

impl PaletteMember {
    /// A palette of 256 black entries.
    pub fn new() -> (p: PaletteMember)
        ensures
            p.colors@ == Seq::new(256, |i: int| (0u8, 0u8, 0u8)),
    {
        let mut colors: Vec<(u8, u8, u8)> = Vec::new();
        let mut i: usize = 0;
        while i < 256
            invariant
                i <= 256,
                colors@ == Seq::new(i as nat, |k: int| (0u8, 0u8, 0u8)),
            decreases 256 - i,
        {
            colors.push((0, 0, 0));
            i = i + 1;
            assert(colors@ =~= Seq::new(i as nat, |k: int| (0u8, 0u8, 0u8)));
        }
        PaletteMember { colors }
    }
}

/// The kind of a shape member.
#[derive(Clone, Copy, Debug, PartialEq, Eq, Structural)]
pub enum ShapeType {
    Rect,
    Oval,
    OvalRect,
    Line,
    Unknown,
}

/// What a shape member's chunk records of the shape.
#[derive(Clone, Copy, Debug)]
pub struct ShapeInfo {
    pub shape_type: ShapeType,
    pub rect_top: i16,
    pub rect_left: i16,
    pub rect_bottom: i16,
    pub rect_right: i16,
    pub pattern: u16,
    pub fore_color: u8,
    pub back_color: u8,
    pub fill_type: u8,
    pub line_thickness: u8,
    pub line_direction: u8,
}

/// A shape (rect, oval, line) cast member.
#[derive(Clone, Copy)]
pub struct ShapeMember {
    pub shape_info: ShapeInfo,
    pub script_id: u32,
    pub member_script_ref: Option<CastMemberRef>,
}

/// What the Flash member's chunk records; here the stage rect it caches.
#[derive(Clone, Copy, Debug)]
pub struct FlashInfo {
    /// Left, top, right, bottom.
    pub flash_rect: (i32, i32, i32, i32),
}

/// A Flash member: the SWF data and where it registers.
pub struct FlashMember {
    pub data: Vec<u8>,
    pub reg_point: (i16, i16),
    pub flash_info: Option<FlashInfo>,
}

/// Bit `pos` of the data, counting from the most significant bit of byte 0.
pub open spec fn bit_at(data: Seq<u8>, pos: int) -> bool {
    (data[pos / 8] >> ((7 - pos % 8) as u8)) & 1u8 == 1u8
}

/// The `n` bits from bit `pos`, most significant first, as an unsigned number.
pub open spec fn bits_value(data: Seq<u8>, pos: int, n: nat) -> int
    decreases n,
{
    if n == 0 {
        0
    } else {
        2 * bits_value(data, pos, (n - 1) as nat) + if bit_at(data, pos + n - 1) {
            1int
        } else {
            0int
        }
    }
}

/// The `n` bits from bit `pos` as a two's-complement number.
pub open spec fn signed_bits(data: Seq<u8>, pos: int, n: nat) -> int {
    if n > 0 && bit_at(data, pos) {
        bits_value(data, pos, n) - pow2(n)
    } else {
        bits_value(data, pos, n)
    }
}

/// Division rounding toward zero.
pub open spec fn div_toward_zero(a: int, d: int) -> int {
    if a >= 0 {
        a / d
    } else {
        -((-a) / d)
    }
}

/// The bits per field of an uncompressed SWF's frame rect: the top five
/// bits of byte 8.
pub open spec fn swf_nbits(data: Seq<u8>) -> nat {
    (data[8] >> 3u8) as nat
}

/// Whether the data is an uncompressed SWF (`FWS`) long enough to hold its
/// frame rect.
pub open spec fn swf_rect_present(data: Seq<u8>) -> bool {
    &&& data.len() >= 9
    &&& data[0] == 0x46u8 && data[1] == 0x57u8 && data[2] == 0x53u8
    &&& data.len() >= 8 + (5 + swf_nbits(data) * 4 + 7) / 8
}

/// The width and height, in pixels, of an uncompressed SWF's frame rect
/// (four signed fields in twips, after a 5-bit field width, from byte 8);
/// `None` for anything else.
pub open spec fn swf_dimensions(data: Seq<u8>) -> Option<(u16, u16)> {
    if swf_rect_present(data) {
        let n = swf_nbits(data);
        let start = 69int;
        let x_min = signed_bits(data, start, n);
        let x_max = signed_bits(data, start + n, n);
        let y_min = signed_bits(data, start + 2 * n, n);
        let y_max = signed_bits(data, start + 3 * n, n);
        Some(
            (
                div_toward_zero(x_max - x_min, 20) as u16,
                div_toward_zero(y_max - y_min, 20) as u16,
            ),
        )
    } else {
        None
    }
}

/// Reads `n` bits (at most 31) from bit `pos` as a signed number.
fn read_bits(data: &[u8], pos: usize, n: usize) -> (v: i32)
    requires
        n <= 31,
        pos + n <= 8 * data.len(),
        pos + n < usize::MAX,
    ensures
        v == signed_bits(data@, pos as int, n as nat),
{
    let mut val: i64 = 0;
    let mut p: i64 = 1;
    let mut i: usize = 0;
    proof {
        lemma2_to64();
    }
    while i < n
        invariant
            i <= n <= 31,
            pos + n <= 8 * data.len(),
            pos + n < usize::MAX,
            val == bits_value(data@, pos as int, i as nat),
            p == pow2(i as nat),
            0 <= val < p <= 0x8000_0000,
        decreases n - i,
    {
        let byte_idx = (pos + i) / 8;
        let bit_idx = 7 - ((pos + i) % 8);
        let bit = (data[byte_idx] >> (bit_idx as u8)) & 1u8;
        proof {
            lemma2_to64();
            lemma_pow2_unfold((i + 1) as nat);
            let b = data@[byte_idx as int];
            let k = bit_idx as u8;
            assert((b >> k) & 1u8 == 0u8 || (b >> k) & 1u8 == 1u8) by (bit_vector);
            if i + 1 < 31 {
                lemma_pow2_strictly_increases((i + 1) as nat, 31);
            }
        }
        val = 2 * val + if bit == 1 {
            1
        } else {
            0
        };
        p = 2 * p;
        i = i + 1;
    }
    if n > 0 {
        let top = (data[pos / 8] >> ((7 - pos % 8) as u8)) & 1u8;
        if top == 1 {
            proof {
                lemma_pow2_unfold(n as nat);
            }
            return (val - p) as i32;
        }
    }
    val as i32
}

/// The width and height of an uncompressed SWF's frame rect; see
/// `swf_dimensions`.
pub fn parse_swf_dimensions(data: &[u8]) -> (r: Option<(u16, u16)>)
    ensures
        r == swf_dimensions(data@),
{
    if data.len() < 9 {
        return None;
    }
    if !(data[0] == 0x46u8 && data[1] == 0x57u8 && data[2] == 0x53u8) {
        return None;
    }
    let rect_start: usize = 8;
    let nbits = (data[rect_start] >> 3u8) as usize;
    proof {
        let b = data@[8];
        assert(b >> 3u8 <= 31u8) by (bit_vector);
    }
    let total_bits = 5 + nbits * 4;
    let total_bytes = (total_bits + 7) / 8;
    if data.len() < rect_start + total_bytes {
        return None;
    }
    let bit_pos = rect_start * 8 + 5;
    let x_min = read_bits(data, bit_pos, nbits);
    let x_max = read_bits(data, bit_pos + nbits, nbits);
    let y_min = read_bits(data, bit_pos + 2 * nbits, nbits);
    let y_max = read_bits(data, bit_pos + 3 * nbits, nbits);
    let dx = (x_max as i64) - (x_min as i64);
    let dy = (y_max as i64) - (y_min as i64);
    let w = if dx >= 0 {
        dx / 20
    } else {
        -((-dx) / 20)
    };
    let h = if dy >= 0 {
        dy / 20
    } else {
        -((-dy) / 20)
    };
    Some((w as u16, h as u16))
}

impl FlashMember {
    /// The member's stage rect (left, top, right, bottom): the one its chunk
    /// caches, or, where that is all zeros, the SWF's own size at the origin.
    pub fn effective_rect(&self) -> (r: (i32, i32, i32, i32))
        ensures
            r == ({
                let cached = match self.flash_info {
                    Some(fi) => fi.flash_rect,
                    None => (0i32, 0i32, 0i32, 0i32),
                };
                if cached != (0i32, 0i32, 0i32, 0i32) {
                    cached
                } else {
                    match swf_dimensions(self.data@) {
                        Some((w, h)) => (0i32, 0i32, w as i32, h as i32),
                        None => cached,
                    }
                }
            }),
    {
        let cached = match &self.flash_info {
            Some(fi) => fi.flash_rect,
            None => (0, 0, 0, 0),
        };
        if !(cached.0 == 0 && cached.1 == 0 && cached.2 == 0 && cached.3 == 0) {
            return cached;
        }
        if let Some((w, h)) = parse_swf_dimensions(self.data.as_slice()) {
            return (0, 0, w as i32, h as i32);
        }
        cached
    }
}

/// The type of a cast member, as scripts ask for it.
#[derive(Clone, Copy, Debug, PartialEq, Eq, Structural)]
pub enum CastMemberTypeId {
    Field,
    Text,
    Button,
    Script,
    Bitmap,
    Palette,
    Shape,
    VectorShape,
    FilmLoop,
    Sound,
    Font,
    Flash,
    Shockwave3d,
    HavokPhysics,
    PhysXPhysics,
    Unknown,
}

/// The symbol name of a member type.
pub open spec fn type_symbol(t: CastMemberTypeId) -> Seq<char> {
    match t {
        CastMemberTypeId::Field => "field"@,
        CastMemberTypeId::Text => "text"@,
        CastMemberTypeId::Button => "button"@,
        CastMemberTypeId::Script => "script"@,
        CastMemberTypeId::Bitmap => "bitmap"@,
        CastMemberTypeId::Palette => "palette"@,
        CastMemberTypeId::Shape => "shape"@,
        CastMemberTypeId::VectorShape => "vectorShape"@,
        CastMemberTypeId::FilmLoop => "filmLoop"@,
        CastMemberTypeId::Sound => "sound"@,
        CastMemberTypeId::Font => "font"@,
        CastMemberTypeId::Flash => "flash"@,
        CastMemberTypeId::Shockwave3d => "shockwave3d"@,
        CastMemberTypeId::HavokPhysics => "havok"@,
        CastMemberTypeId::PhysXPhysics => "physics"@,
        CastMemberTypeId::Unknown => "unknown"@,
    }
}

impl CastMemberTypeId {
    /// The symbol name of the member type; never an error.
    pub fn symbol_string(&self) -> (r: Result<&str, crate::datum::ScriptError>)
        ensures
            r matches Ok(s) && s@ == type_symbol(*self),
    {
        match self {
            CastMemberTypeId::Field => Ok("field"),
            CastMemberTypeId::Text => Ok("text"),
            CastMemberTypeId::Button => Ok("button"),
            CastMemberTypeId::Script => Ok("script"),
            CastMemberTypeId::Bitmap => Ok("bitmap"),
            CastMemberTypeId::Palette => Ok("palette"),
            CastMemberTypeId::Shape => Ok("shape"),
            CastMemberTypeId::VectorShape => Ok("vectorShape"),
            CastMemberTypeId::FilmLoop => Ok("filmLoop"),
            CastMemberTypeId::Sound => Ok("sound"),
            CastMemberTypeId::Font => Ok("font"),
            CastMemberTypeId::Flash => Ok("flash"),
            CastMemberTypeId::Shockwave3d => Ok("shockwave3d"),
            CastMemberTypeId::HavokPhysics => Ok("havok"),
            CastMemberTypeId::PhysXPhysics => Ok("physics"),
            CastMemberTypeId::Unknown => Ok("unknown"),
        }
    }
}

/// How a PhysX body moves.
#[derive(Clone, Copy, Debug, PartialEq, Eq, Structural)]
pub enum PhysXBodyType {
    Static,
    Dynamic,
    Kinematic,
}

/// The collision shape of a PhysX body.
#[derive(Clone, Copy, Debug, PartialEq, Eq, Structural)]
pub enum PhysXShapeKind {
    Box,
    Sphere,
    Capsule,
    ConvexShape,
    ConcaveShape,
}

/// The kind of a PhysX constraint: a spring or one of the joints.
#[derive(Clone, Copy, Debug, PartialEq, Eq, Structural)]
pub enum PhysXConstraintKind {
    Spring,
    LinearJoint,
    AngularJoint,
    D6Joint,
}

/// What puts a PhysX body to sleep.
#[derive(Clone, Copy, Debug, PartialEq, Eq, Structural)]
pub enum PhysXSleepMode {
    Energy,
    LinearVelocity,
}

/// How a PhysX world steps time.
#[derive(Clone, Copy, Debug, PartialEq, Eq, Structural)]
pub enum PhysXTimeStepMode {
    Equal,
    Automatic,
}

// ---- Film loops ----

/// What a film loop's score holds for a sprite in a frame: its member (by
/// cast and number), its position (the sprite's center) and its size.
#[derive(Clone, Copy, Debug)]
pub struct SpriteRecord {
    pub cast_lib: u16,
    pub cast_member: u16,
    pub pos_x: i16,
    pub pos_y: i16,
    pub width: u16,
    pub height: u16,
}

/// Whether a sprite counts toward a film loop's bounds: it is on a sprite
/// channel (6 on; the first six are effect channels), has a member or is
/// an inline shape (cast 0xFFFE, member 0, with a size), is not on cast 0,
/// and has a size.
pub open spec fn counts_toward_bounds(channel: u16, d: SpriteRecord) -> bool {
    let inline_shape = d.cast_lib == 0xfffe && d.cast_member == 0 && (d.width > 0 || d.height > 0);
    channel >= 6 && !((d.cast_member == 0 && !inline_shape) || d.cast_lib == 0 || (d.width == 0 && d.height == 0))
}

/// A sprite's rectangle: centered on its position.
pub open spec fn sprite_bounds(d: SpriteRecord) -> (int, int, int, int) {
    let left = d.pos_x - d.width / 2;
    let top = d.pos_y - d.height / 2;
    (left, top, left + d.width, top + d.height)
}

/// The rectangle holding every sprite that counts, if any does.
pub open spec fn sprites_bounds(data: Seq<(u32, u16, SpriteRecord)>) -> Option<(int, int, int, int)>
    decreases data.len(),
{
    if data.len() == 0 {
        None
    } else {
        let rest = sprites_bounds(data.drop_last());
        let (_, channel, d) = data.last();
        if !counts_toward_bounds(channel, d) {
            rest
        } else {
            let (l, t, r, b) = sprite_bounds(d);
            match rest {
                None => Some((l, t, r, b)),
                Some((l0, t0, r0, b0)) => Some((
                    if l < l0 { l } else { l0 },
                    if t < t0 { t } else { t0 },
                    if r > r0 { r } else { r0 },
                    if b > b0 { b } else { b0 },
                )),
            }
        }
    }
}

/// A film loop's first rectangle: the one holding every sprite of its
/// score's frames that counts (see `counts_toward_bounds`), or the unit
/// square at the origin where none does.
pub fn compute_filmloop_initial_rect(frame_channel_data: &Vec<(u32, u16, SpriteRecord)>, _reg_point: (i16, i16)) -> (r: (
    i32,
    i32,
    i32,
    i32,
))
    ensures
        match sprites_bounds(frame_channel_data@) {
            Some((l, t, rr, b)) => r.0 == l && r.1 == t && r.2 == rr && r.3 == b,
            None => r == (0i32, 0i32, 1i32, 1i32),
        },
{
    let mut min_x: i32 = i32::MAX;
    let mut min_y: i32 = i32::MAX;
    let mut max_x: i32 = i32::MIN;
    let mut max_y: i32 = i32::MIN;
    let mut found_any = false;
    let mut i: usize = 0;
    while i < frame_channel_data.len()
        invariant
            i <= frame_channel_data.len(),
            match sprites_bounds(frame_channel_data@.take(i as int)) {
                Some((l, t, rr, b)) => found_any && min_x == l && min_y == t && max_x == rr && max_y == b,
                None => !found_any,
            },
        decreases frame_channel_data.len() - i,
    {
        let (_frame, channel, d) = frame_channel_data[i];
        assert(frame_channel_data@.take(i + 1).drop_last() =~= frame_channel_data@.take(i as int));
        assert(frame_channel_data@.take(i + 1).last() == frame_channel_data@[i as int]);
        let inline_shape = d.cast_lib == 0xfffe && d.cast_member == 0 && (d.width > 0 || d.height > 0);
        if channel >= 6 && !((d.cast_member == 0 && !inline_shape) || d.cast_lib == 0 || (d.width == 0 && d.height == 0)) {
            let left = d.pos_x as i32 - d.width as i32 / 2;
            let top = d.pos_y as i32 - d.height as i32 / 2;
            let right = left + d.width as i32;
            let bottom = top + d.height as i32;
            if !found_any {
                min_x = left;
                min_y = top;
                max_x = right;
                max_y = bottom;
            } else {
                if left < min_x {
                    min_x = left;
                }
                if top < min_y {
                    min_y = top;
                }
                if right > max_x {
                    max_x = right;
                }
                if bottom > max_y {
                    max_y = bottom;
                }
            }
            found_any = true;
        }
        i = i + 1;
    }
    assert(frame_channel_data@.take(frame_channel_data.len() as int) =~= frame_channel_data@);
    if !found_any {
        return (0, 0, 1, 1);
    }
    (min_x, min_y, max_x, max_y)
}

} // verus!
