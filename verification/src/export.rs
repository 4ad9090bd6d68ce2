//! Exporting cast members as files: YAML descriptions of fields, buttons and
//! Flash members, palette files, and the naming of exported files.
use vstd::prelude::*;
use crate::cast_member::{ButtonMember, FieldMember, FlashMember, PaletteMember, ShapeMember, ShapeType};
use crate::text::{int_to_decimal, int_to_string, push_char, same_text};

verus! {

/// One exported file: a path in the export and its contents.
pub struct ExportFile {
    pub path: String,
    pub content: FileContent,
}

/// The contents of an exported file.
pub enum FileContent {
    Text(String),
    Binary(Vec<u8>),
}

/// A text file.
pub fn text_file(path: String, content: String) -> (f: ExportFile)
    ensures
        f.path@ == path@,
        f.content matches FileContent::Text(t) && t@ == content@,
{
    ExportFile { path, content: FileContent::Text(content) }
}

/// A binary file.
pub fn binary_file(path: String, data: Vec<u8>) -> (f: ExportFile)
    ensures
        f.path@ == path@,
        f.content matches FileContent::Binary(d) && d@ == data@,
{
    ExportFile { path, content: FileContent::Binary(data) }
}

// ---- File names ----

/// A character that cannot stand in a file name on some system.
pub open spec fn is_reserved_in_file_names(c: char) -> bool {
    c == '\\' || c == '/' || c == ':' || c == '*' || c == '?' || c == '"' || c == '<' || c == '>' || c == '|'
}

/// A reserved character becomes `_`.
pub open spec fn file_name_char(c: char) -> char {
    if is_reserved_in_file_names(c) {
        '_'
    } else {
        c
    }
}

/// A character trimmed from the ends of a file name.
pub open spec fn is_dot_or_space(c: char) -> bool {
    c == '.' || c == ' '
}

/// `i` is the first character of `s` that is neither a dot nor a space.
pub open spec fn first_kept(s: Seq<char>, i: int) -> bool {
    &&& 0 <= i < s.len()
    &&& !is_dot_or_space(s[i])
    &&& forall|j: int| 0 <= j < i ==> is_dot_or_space(#[trigger] s[j])
}

/// `k - 1` is the last character of `s` that is neither a dot nor a space.
pub open spec fn end_kept(s: Seq<char>, k: int) -> bool {
    &&& 0 < k <= s.len()
    &&& !is_dot_or_space(s[k - 1])
    &&& forall|j: int| k <= j < s.len() ==> is_dot_or_space(#[trigger] s[j])
}

/// A name with reserved characters replaced by `_` and dots and spaces
/// trimmed from both ends.
pub open spec fn sanitized_name(name: Seq<char>) -> Seq<char> {
    let s = name.map_values(|c: char| file_name_char(c));
    if forall|i: int| 0 <= i < s.len() ==> is_dot_or_space(#[trigger] s[i]) {
        Seq::empty()
    } else {
        s.subrange(choose|i: int| first_kept(s, i), choose|k: int| end_kept(s, k))
    }
}


proof fn lemma_trim_bounds(s: Seq<char>)
    requires
        !(forall|i: int| 0 <= i < s.len() ==> is_dot_or_space(#[trigger] s[i])),
    ensures
        first_kept(s, choose|i: int| first_kept(s, i)),
        end_kept(s, choose|k: int| end_kept(s, k)),
        (choose|i: int| first_kept(s, i)) < (choose|k: int| end_kept(s, k)),
{
    let w = choose|i: int| 0 <= i < s.len() && !is_dot_or_space(s[i]);
    lemma_first_kept_exists(s, w);
    lemma_end_kept_exists(s, w);
    let st = choose|i: int| first_kept(s, i);
    let en = choose|k: int| end_kept(s, k);
    if st >= en {
        assert(is_dot_or_space(s[st]));
    }
}

proof fn lemma_first_kept_exists(s: Seq<char>, w: int)
    requires
        0 <= w < s.len(),
        !is_dot_or_space(s[w]),
    ensures
        exists|i: int| first_kept(s, i),
    decreases w,
{
    if forall|j: int| 0 <= j < w ==> is_dot_or_space(#[trigger] s[j]) {
        assert(first_kept(s, w));
    } else {
        let v = choose|j: int| 0 <= j < w && !is_dot_or_space(#[trigger] s[j]);
        lemma_first_kept_exists(s, v);
    }
}

proof fn lemma_end_kept_exists(s: Seq<char>, w: int)
    requires
        0 <= w < s.len(),
        !is_dot_or_space(s[w]),
    ensures
        exists|k: int| end_kept(s, k),
    decreases s.len() - w,
{
    if forall|j: int| w + 1 <= j < s.len() ==> is_dot_or_space(#[trigger] s[j]) {
        assert(end_kept(s, w + 1));
    } else {
        let v = choose|j: int| w + 1 <= j < s.len() && !is_dot_or_space(#[trigger] s[j]);
        lemma_end_kept_exists(s, v);
    }
}

/// A sanitized name holds no reserved character and neither starts nor ends
/// with a dot or a space.
pub proof fn lemma_sanitized_is_clean(name: Seq<char>)
    ensures
        forall|i: int| 0 <= i < sanitized_name(name).len() ==> !is_reserved_in_file_names(#[trigger] sanitized_name(name)[i]),
        sanitized_name(name).len() > 0 ==> !is_dot_or_space(sanitized_name(name)[0]) && !is_dot_or_space(
            sanitized_name(name).last(),
        ),
{
    let s = name.map_values(|c: char| file_name_char(c));
    if !(forall|i: int| 0 <= i < s.len() ==> is_dot_or_space(#[trigger] s[i])) {
        lemma_trim_bounds(s);
        let st = choose|i: int| first_kept(s, i);
        let en = choose|k: int| end_kept(s, k);
        let t = s.subrange(st, en);
        assert forall|i: int| 0 <= i < t.len() implies !is_reserved_in_file_names(#[trigger] t[i]) by {
            assert(t[i] == s[st + i]);
            assert(s[st + i] == file_name_char(name[st + i]));
        }
    }
}

/// Sanitizing a sanitized name changes nothing.
pub proof fn lemma_sanitize_idempotent(name: Seq<char>)
    ensures
        sanitized_name(sanitized_name(name)) == sanitized_name(name),
{
    let t = sanitized_name(name);
    lemma_sanitized_is_clean(name);
    let s2 = t.map_values(|c: char| file_name_char(c));
    assert(s2 =~= t);
    if t.len() == 0 {
        assert(sanitized_name(t) =~= t);
    } else {
        assert(first_kept(t, 0));
        assert(end_kept(t, t.len() as int));
        lemma_trim_bounds(t);
        let st = choose|i: int| first_kept(t, i);
        let en = choose|k: int| end_kept(t, k);
        if st > 0 {
            assert(is_dot_or_space(t[0]));
        }
        if en < t.len() {
            assert(is_dot_or_space(t[t.len() - 1]));
        }
        assert(t.subrange(st, en) =~= t);
    }
}

/// A string is written as it is exactly when it needs no quoting.
pub proof fn lemma_plain_yaml_is_verbatim(s: Seq<char>)
    ensures
        !yaml_needs_quoting(s) ==> yaml_text(s) == s,
        yaml_needs_quoting(s) ==> yaml_text(s)[0] == '"' && yaml_text(s).last() == '"',
{
}

fn file_name_char_exec(c: char) -> (r: char)
    ensures
        r == file_name_char(c),
{
    if c == '\\' || c == '/' || c == ':' || c == '*' || c == '?' || c == '"' || c == '<' || c == '>' || c
        == '|' {
        '_'
    } else {
        c
    }
}

/// A member name made safe as a file name; see `sanitized_name`.
pub fn sanitize_filename(name: &str) -> (r: String)
    ensures
        r@ == sanitized_name(name@),
{
    let ghost s = name@.map_values(|c: char| file_name_char(c));
    let n = name.unicode_len();
    let mut mapped: Vec<char> = Vec::new();
    let mut i: usize = 0;
    while i < n
        invariant
            n == name@.len(),
            i <= n,
            s == name@.map_values(|c: char| file_name_char(c)),
            mapped@ == s.take(i as int),
        decreases n - i,
    {
        mapped.push(file_name_char_exec(name.get_char(i)));
        i = i + 1;
        assert(mapped@ =~= s.take(i as int));
    }
    assert(mapped@ =~= s);
    let mut start: usize = 0;
    while start < n && (mapped[start] == '.' || mapped[start] == ' ')
        invariant
            n == mapped@.len(),
            start <= n,
            forall|j: int| 0 <= j < start ==> is_dot_or_space(#[trigger] mapped@[j]),
        decreases n - start,
    {
        start = start + 1;
    }
    let mut out = String::new();
    if start == n {
        assert(sanitized_name(name@) =~= Seq::<char>::empty());
        return out;
    }
    let mut end: usize = n;
    while end > start && (mapped[end - 1] == '.' || mapped[end - 1] == ' ')
        invariant
            n == mapped@.len(),
            start < n,
            !is_dot_or_space(mapped@[start as int]),
            start < end <= n,
            forall|j: int| end <= j < n ==> is_dot_or_space(#[trigger] mapped@[j]),
        decreases end,
    {
        end = end - 1;
    }
    let mut k: usize = start;
    while k < end
        invariant
            start <= k <= end <= mapped@.len(),
            out@ == mapped@.subrange(start as int, k as int),
        decreases end - k,
    {
        push_char(&mut out, mapped[k]);
        k = k + 1;
        assert(out@ =~= mapped@.subrange(start as int, k as int));
    }
    proof {
        let sv = mapped@;
        assert(first_kept(sv, start as int));
        let st = choose|i: int| first_kept(sv, i);
        if st < start {
            assert(is_dot_or_space(sv[st]));
        }
        if start < st {
            assert(is_dot_or_space(sv[start as int]));
        }
        assert(end_kept(sv, end as int));
        let en = choose|k: int| end_kept(sv, k);
        if en < end {
            assert(is_dot_or_space(sv[end - 1]));
        }
        if end < en {
            assert(is_dot_or_space(sv[en - 1]));
        }
    }
    out
}

// ---- YAML values ----

/// A character that makes a YAML scalar need quotes.
pub open spec fn is_yaml_special(c: char) -> bool {
    c == ':' || c == '#' || c == '[' || c == ']' || c == '{' || c == '}' || c == ',' || c == '&' || c
        == '*' || c == '?' || c == '|' || c == '-' || c == '<' || c == '>' || c == '=' || c == '!' || c
        == '%' || c == '@' || c == '`' || c == '\'' || c == '"' || c == '\n' || c == '\r'
}

/// Whether a string must be quoted to read back as the same YAML string:
/// it is empty, holds a special character, starts with a digit, or reads as
/// a boolean or null.
pub open spec fn yaml_needs_quoting(s: Seq<char>) -> bool {
    ||| s.len() == 0
    ||| (exists|i: int| 0 <= i < s.len() && is_yaml_special(#[trigger] s[i]))
    ||| ('0' <= s[0] && s[0] <= '9')
    ||| s == "true"@
    ||| s == "false"@
    ||| s == "null"@
    ||| s == "yes"@
    ||| s == "no"@
}

/// The text with backslashes and double quotes escaped by a backslash.
pub open spec fn yaml_escaped(s: Seq<char>) -> Seq<char>
    decreases s.len(),
{
    if s.len() == 0 {
        Seq::empty()
    } else {
        yaml_escaped(s.drop_last()) + if s.last() == '\\' {
            seq!['\\', '\\']
        } else if s.last() == '"' {
            seq!['\\', '"']
        } else {
            seq![s.last()]
        }
    }
}

/// A string as a YAML scalar: quoted and escaped where needed, else as is.
pub open spec fn yaml_text(s: Seq<char>) -> Seq<char> {
    if yaml_needs_quoting(s) {
        seq!['"'] + yaml_escaped(s) + seq!['"']
    } else {
        s
    }
}

fn yaml_special(c: char) -> (r: bool)
    ensures
        r == is_yaml_special(c),
{
    c == ':' || c == '#' || c == '[' || c == ']' || c == '{' || c == '}' || c == ',' || c == '&' || c
        == '*' || c == '?' || c == '|' || c == '-' || c == '<' || c == '>' || c == '=' || c == '!' || c
        == '%' || c == '@' || c == '`' || c == '\'' || c == '"' || c == '\n' || c == '\r'
}


/// A string written as a YAML scalar; see `yaml_text`.
pub fn yaml_string(s: &str) -> (r: String)
    ensures
        r@ == yaml_text(s@),
{
    let n = s.unicode_len();
    let mut special = false;
    let mut i: usize = 0;
    while i < n
        invariant
            n == s@.len(),
            i <= n,
            special == (exists|j: int| 0 <= j < i && is_yaml_special(#[trigger] s@[j])),
        decreases n - i,
    {
        if yaml_special(s.get_char(i)) {
            special = true;
        }
        i = i + 1;
    }
    let starts_with_digit = if n > 0 {
        let c = s.get_char(0);
        '0' <= c && c <= '9'
    } else {
        false
    };
    let needs_quoting = n == 0 || special || starts_with_digit
        || same_text(s, "true") || same_text(s, "false") || same_text(s, "null") || same_text(s, "yes")
        || same_text(s, "no");
    if !needs_quoting {
        return s.to_string();
    }
    let mut out = String::new();
    push_char(&mut out, '"');
    let mut k: usize = 0;
    while k < n
        invariant
            n == s@.len(),
            k <= n,
            out@ == seq!['"'] + yaml_escaped(s@.take(k as int)),
        decreases n - k,
    {
        let c = s.get_char(k);
        assert(s@.take(k + 1).drop_last() =~= s@.take(k as int));
        if c == '\\' {
            push_char(&mut out, '\\');
            push_char(&mut out, '\\');
        } else if c == '"' {
            push_char(&mut out, '\\');
            push_char(&mut out, '"');
        } else {
            push_char(&mut out, c);
        }
        k = k + 1;
        assert(out@ =~= seq!['"'] + yaml_escaped(s@.take(k as int)));
    }
    assert(s@.take(n as int) =~= s@);
    push_char(&mut out, '"');
    out
}

/// The lowercase hexadecimal digit of `d`.
pub open spec fn hex_digit(d: int) -> char {
    if d < 10 {
        ('0' as int + d) as char
    } else {
        ('a' as int + d - 10) as char
    }
}

/// A byte as two lowercase hexadecimal digits.
pub open spec fn hex_byte(b: u8) -> Seq<char> {
    seq![hex_digit(b as int / 16), hex_digit(b as int % 16)]
}

fn hex_digit_exec(d: u8) -> (c: char)
    requires
        d < 16,
    ensures
        c == hex_digit(d as int),
{
    if d < 10 {
        (('0' as u8) + d) as char
    } else {
        (('a' as u8) + d - 10) as char
    }
}

fn push_hex_byte(out: &mut String, b: u8)
    ensures
        final(out)@ == old(out)@ + hex_byte(b),
{
    push_char(out, hex_digit_exec(b / 16));
    push_char(out, hex_digit_exec(b % 16));
    assert(final(out)@ =~= old(out)@ + hex_byte(b));
}

/// A color as a quoted `"#rrggbb"` YAML string.
pub open spec fn rgb_hex_text(c: (u8, u8, u8)) -> Seq<char> {
    seq!['"', '#'] + hex_byte(c.0) + hex_byte(c.1) + hex_byte(c.2) + seq!['"']
}

/// A color as a quoted `"#rrggbb"` YAML string.
pub fn rgb_hex(c: (u8, u8, u8)) -> (r: String)
    ensures
        r@ == rgb_hex_text(c),
{
    let mut out = String::new();
    push_char(&mut out, '"');
    push_char(&mut out, '#');
    push_hex_byte(&mut out, c.0);
    push_hex_byte(&mut out, c.1);
    push_hex_byte(&mut out, c.2);
    push_char(&mut out, '"');
    assert(out@ =~= rgb_hex_text(c));
    out
}

/// The name of a vector shape's fill mode.
pub fn fill_mode_name(mode: u32) -> (r: &'static str)
    ensures
        r@ == (if mode == 1 {
            "solid"@
        } else if mode == 2 {
            "gradient"@
        } else {
            "none"@
        }),
{
    match mode {
        1 => "solid",
        2 => "gradient",
        _ => "none",
    }
}

// ---- Palettes ----

/// Byte `i` of a palette's ACT file: the channels of the first 256 colors in
/// order, then zeros up to 768 bytes.
pub open spec fn act_byte(colors: Seq<(u8, u8, u8)>, i: int) -> u8 {
    if i / 3 < colors.len() {
        let c = colors[i / 3];
        if i % 3 == 0 {
            c.0
        } else if i % 3 == 1 {
            c.1
        } else {
            c.2
        }
    } else {
        0
    }
}

/// A palette as an Adobe color table: 768 bytes.
pub fn encode_act(pm: &PaletteMember) -> (data: Vec<u8>)
    ensures
        data.len() == 768,
        forall|i: int| 0 <= i < 768 ==> data@[i] == act_byte(pm.colors@, i),
{
    let mut data: Vec<u8> = Vec::new();
    let mut i: usize = 0;
    while i < 768
        invariant
            i <= 768,
            data.len() == i,
            forall|j: int| 0 <= j < i ==> data@[j] == act_byte(pm.colors@, j),
        decreases 768 - i,
    {
        let k = i / 3;
        let b = if k < pm.colors.len() {
            let c = pm.colors[k];
            if i % 3 == 0 {
                c.0
            } else if i % 3 == 1 {
                c.1
            } else {
                c.2
            }
        } else {
            0
        };
        data.push(b);
        i = i + 1;
    }
    data
}

// ---- YAML documents ----

/// A titled YAML section: its name and its lines, each indented two spaces.
pub struct Section {
    name: &'static str,
    lines: Vec<String>,
}

/// `key: value`.
pub open spec fn kv(key: Seq<char>, value: Seq<char>) -> Seq<char> {
    key + seq![':', ' '] + value
}

/// `true` or `false`.
pub open spec fn bool_text(b: bool) -> Seq<char> {
    if b {
        "true"@
    } else {
        "false"@
    }
}

/// Lines written one per line.
pub open spec fn lines_block(lines: Seq<Seq<char>>) -> Seq<char>
    decreases lines.len(),
{
    if lines.len() == 0 {
        Seq::empty()
    } else {
        lines_block(lines.drop_last()) + lines.last() + seq!['\n']
    }
}

/// A section's text: nothing for a section without lines, else `name:` and
/// its lines, each indented two spaces.
pub open spec fn section_text(name: Seq<char>, lines: Seq<Seq<char>>) -> Seq<char> {
    if lines.len() == 0 {
        Seq::empty()
    } else {
        name + seq![':', '\n'] + lines_block(lines.map_values(|l: Seq<char>| seq![' ', ' '] + l))
    }
}

impl Section {
    /// The section's name and its lines as pushed.
    pub closed spec fn name_view(&self) -> Seq<char> {
        self.name@
    }

    pub closed spec fn lines_view(&self) -> Seq<Seq<char>> {
        self.lines@.map_values(|l: String| l@)
    }

    /// An empty section.
    pub fn new(name: &'static str) -> (s: Section)
        ensures
            s.name_view() == name@,
            s.lines_view() == Seq::<Seq<char>>::empty(),
    {
        let s = Section { name, lines: Vec::new() };
        assert(s.lines_view() =~= Seq::<Seq<char>>::empty());
        s
    }

    /// Adds a line.
    pub fn push(&mut self, line: String)
        ensures
            final(self).name_view() == old(self).name_view(),
            final(self).lines_view() == old(self).lines_view().push(line@),
    {
        self.lines.push(line);
        assert(self.lines_view() =~= old(self).lines_view().push(line@));
    }

    /// The section's text; see `section_text`.
    pub fn build(&self) -> (r: String)
        ensures
            r@ == section_text(self.name_view(), self.lines_view()),
    {
        if self.lines.len() == 0 {
            return String::new();
        }
        let mut s = String::new();
        s.append(self.name);
        push_char(&mut s, ':');
        push_char(&mut s, '\n');
        let ghost head = self.name@ + seq![':', '\n'];
        let ghost indented = self.lines_view().map_values(|l: Seq<char>| seq![' ', ' '] + l);
        let mut i: usize = 0;
        while i < self.lines.len()
            invariant
                i <= self.lines.len(),
                head == self.name@ + seq![':', '\n'],
                indented == self.lines_view().map_values(|l: Seq<char>| seq![' ', ' '] + l),
                s@ == head + lines_block(indented.take(i as int)),
            decreases self.lines.len() - i,
        {
            push_char(&mut s, ' ');
            push_char(&mut s, ' ');
            s.append(self.lines[i].as_str());
            push_char(&mut s, '\n');
            assert(indented.take(i + 1).drop_last() =~= indented.take(i as int));
            assert(s@ =~= head + lines_block(indented.take(i + 1)));
            i = i + 1;
        }
        assert(indented.take(self.lines.len() as int) =~= indented);
        s
    }
}

/// `key: value` as a string.
pub(crate) fn kv_line(key: &str, value: &str) -> (r: String)
    ensures
        r@ == kv(key@, value@),
{
    let mut s = key.to_string();
    push_char(&mut s, ':');
    push_char(&mut s, ' ');
    s.append(value);
    assert(s@ =~= kv(key@, value@));
    s
}

pub(crate) fn bool_str(b: bool) -> (r: &'static str)
    ensures
        r@ == bool_text(b),
{
    if b {
        "true"
    } else {
        "false"
    }
}

/// The lines of a field's `field` section.
pub open spec fn field_lines(fm: FieldMember) -> Seq<Seq<char>> {
    seq![
        kv("box_type"@, fm.box_type@),
        kv("word_wrap"@, bool_text(fm.word_wrap)),
        kv("width"@, int_to_decimal(fm.width as int)),
        kv("height"@, int_to_decimal(fm.height as int)),
        kv("text_height"@, int_to_decimal(fm.text_height as int)),
        kv("auto_tab"@, bool_text(fm.auto_tab)),
        kv("editable"@, bool_text(fm.editable)),
        kv("border"@, int_to_decimal(fm.border as int)),
        kv("margin"@, int_to_decimal(fm.margin as int)),
        kv("box_drop_shadow"@, int_to_decimal(fm.box_drop_shadow as int)),
        kv("drop_shadow"@, int_to_decimal(fm.drop_shadow as int)),
        kv("top_spacing"@, int_to_decimal(fm.top_spacing as int)),
        kv("anti_alias"@, bool_text(fm.anti_alias)),
    ]
}

/// The lines of a field's `font` section.
pub open spec fn field_font_lines(fm: FieldMember) -> Seq<Seq<char>> {
    seq![
        kv("name"@, yaml_text(fm.font@)),
        kv("style"@, fm.font_style@),
        kv("size"@, int_to_decimal(fm.font_size as int)),
        kv("alignment"@, fm.alignment@),
        kv("fixed_line_space"@, int_to_decimal(fm.fixed_line_space as int)),
    ]
}

/// A field member's YAML description after the member header.
pub open spec fn field_yml(header: Seq<char>, fm: FieldMember) -> Seq<char> {
    header + "type: field\n\n"@ + section_text("field"@, field_lines(fm)) + seq!['\n'] + section_text(
        "font"@,
        field_font_lines(fm),
    )
}

/// A field member's YAML description; see `field_yml`.
pub fn build_field_yml(header: &str, fm: &FieldMember) -> (r: String)
    ensures
        r@ == field_yml(header@, *fm),
{
    let mut field = Section::new("field");
    field.push(kv_line("box_type", fm.box_type.as_str()));
    field.push(kv_line("word_wrap", bool_str(fm.word_wrap)));
    field.push(kv_line("width", int_to_string(fm.width as i64).as_str()));
    field.push(kv_line("height", int_to_string(fm.height as i64).as_str()));
    field.push(kv_line("text_height", int_to_string(fm.text_height as i64).as_str()));
    field.push(kv_line("auto_tab", bool_str(fm.auto_tab)));
    field.push(kv_line("editable", bool_str(fm.editable)));
    field.push(kv_line("border", int_to_string(fm.border as i64).as_str()));
    field.push(kv_line("margin", int_to_string(fm.margin as i64).as_str()));
    field.push(kv_line("box_drop_shadow", int_to_string(fm.box_drop_shadow as i64).as_str()));
    field.push(kv_line("drop_shadow", int_to_string(fm.drop_shadow as i64).as_str()));
    field.push(kv_line("top_spacing", int_to_string(fm.top_spacing as i64).as_str()));
    field.push(kv_line("anti_alias", bool_str(fm.anti_alias)));
    assert(field.lines_view() =~= field_lines(*fm));

    let mut font = Section::new("font");
    font.push(kv_line("name", yaml_string(fm.font.as_str()).as_str()));
    font.push(kv_line("style", fm.font_style.as_str()));
    font.push(kv_line("size", int_to_string(fm.font_size as i64).as_str()));
    font.push(kv_line("alignment", fm.alignment.as_str()));
    font.push(kv_line("fixed_line_space", int_to_string(fm.fixed_line_space as i64).as_str()));
    assert(font.lines_view() =~= field_font_lines(*fm));

    let mut s = header.to_string();
    s.append("type: field\n\n");
    s.append(field.build().as_str());
    push_char(&mut s, '\n');
    s.append(font.build().as_str());
    assert(s@ =~= field_yml(header@, *fm));
    s
}

/// The lines of a button's `button` section.
pub open spec fn button_lines(bm: ButtonMember) -> Seq<Seq<char>> {
    let fm = bm.field;
    seq![
        kv("button_type"@, crate::cast_member::button_symbol(bm.button_type)),
        kv("width"@, int_to_decimal(fm.width as int)),
        kv("height"@, int_to_decimal(fm.height as int)),
        kv("alignment"@, fm.alignment@),
        kv("word_wrap"@, bool_text(fm.word_wrap)),
        kv("auto_tab"@, bool_text(fm.auto_tab)),
        kv("border"@, int_to_decimal(fm.border as int)),
        kv("margin"@, int_to_decimal(fm.margin as int)),
        kv("box_drop_shadow"@, int_to_decimal(fm.box_drop_shadow as int)),
        kv("drop_shadow"@, int_to_decimal(fm.drop_shadow as int)),
        kv("top_spacing"@, int_to_decimal(fm.top_spacing as int)),
        kv("anti_alias"@, bool_text(fm.anti_alias)),
    ]
}

/// The lines of a button's `font` section.
pub open spec fn button_font_lines(bm: ButtonMember) -> Seq<Seq<char>> {
    let fm = bm.field;
    seq![
        kv("name"@, yaml_text(fm.font@)),
        kv("style"@, fm.font_style@),
        kv("size"@, int_to_decimal(fm.font_size as int)),
        kv("fixed_line_space"@, int_to_decimal(fm.fixed_line_space as int)),
    ]
}

/// A button member's YAML description after the member header.
pub open spec fn button_yml(header: Seq<char>, bm: ButtonMember) -> Seq<char> {
    header + "type: button\n\n"@ + section_text("button"@, button_lines(bm)) + seq!['\n'] + section_text(
        "font"@,
        button_font_lines(bm),
    )
}

/// A button member's YAML description; see `button_yml`.
pub fn build_button_yml(header: &str, bm: &ButtonMember) -> (r: String)
    ensures
        r@ == button_yml(header@, *bm),
{
    let fm = &bm.field;
    let mut button = Section::new("button");
    button.push(kv_line("button_type", bm.button_type.symbol_string()));
    button.push(kv_line("width", int_to_string(fm.width as i64).as_str()));
    button.push(kv_line("height", int_to_string(fm.height as i64).as_str()));
    button.push(kv_line("alignment", fm.alignment.as_str()));
    button.push(kv_line("word_wrap", bool_str(fm.word_wrap)));
    button.push(kv_line("auto_tab", bool_str(fm.auto_tab)));
    button.push(kv_line("border", int_to_string(fm.border as i64).as_str()));
    button.push(kv_line("margin", int_to_string(fm.margin as i64).as_str()));
    button.push(kv_line("box_drop_shadow", int_to_string(fm.box_drop_shadow as i64).as_str()));
    button.push(kv_line("drop_shadow", int_to_string(fm.drop_shadow as i64).as_str()));
    button.push(kv_line("top_spacing", int_to_string(fm.top_spacing as i64).as_str()));
    button.push(kv_line("anti_alias", bool_str(fm.anti_alias)));
    assert(button.lines_view() =~= button_lines(*bm));

    let mut font = Section::new("font");
    font.push(kv_line("name", yaml_string(fm.font.as_str()).as_str()));
    font.push(kv_line("style", fm.font_style.as_str()));
    font.push(kv_line("size", int_to_string(fm.font_size as i64).as_str()));
    font.push(kv_line("fixed_line_space", int_to_string(fm.fixed_line_space as i64).as_str()));
    assert(font.lines_view() =~= button_font_lines(*bm));

    let mut s = header.to_string();
    s.append("type: button\n\n");
    s.append(button.build().as_str());
    push_char(&mut s, '\n');
    s.append(font.build().as_str());
    assert(s@ =~= button_yml(header@, *bm));
    s
}

/// `[x, y]`.
pub open spec fn pair_text(x: int, y: int) -> Seq<char> {
    seq!['['] + int_to_decimal(x) + seq![',', ' '] + int_to_decimal(y) + seq![']']
}

pub(crate) fn pair_string(x: i64, y: i64) -> (r: String)
    ensures
        r@ == pair_text(x as int, y as int),
{
    let mut s = String::new();
    push_char(&mut s, '[');
    s.append(int_to_string(x).as_str());
    push_char(&mut s, ',');
    push_char(&mut s, ' ');
    s.append(int_to_string(y).as_str());
    push_char(&mut s, ']');
    assert(s@ =~= pair_text(x as int, y as int));
    s
}

/// A Flash member's YAML description after the member header.
pub open spec fn flash_yml(header: Seq<char>, fm: FlashMember) -> Seq<char> {
    header + "type: flash\n\n"@ + section_text(
        "flash"@,
        seq![kv("reg_point"@, pair_text(fm.reg_point.0 as int, fm.reg_point.1 as int))],
    )
}

/// A Flash member's YAML description; see `flash_yml`.
pub fn build_flash_yml(header: &str, fm: &FlashMember) -> (r: String)
    ensures
        r@ == flash_yml(header@, *fm),
{
    let mut flash = Section::new("flash");
    flash.push(kv_line("reg_point", pair_string(fm.reg_point.0 as i64, fm.reg_point.1 as i64).as_str()));
    assert(flash.lines_view() =~= seq![kv("reg_point"@, pair_text(fm.reg_point.0 as int, fm.reg_point.1 as int))]);
    let mut s = header.to_string();
    s.append("type: flash\n\n");
    s.append(flash.build().as_str());
    assert(s@ =~= flash_yml(header@, *fm));
    s
}

/// The name a shape type is exported under; an unknown shape is a rect.
pub open spec fn shape_type_text(t: ShapeType) -> Seq<char> {
    match t {
        ShapeType::Rect => "rect"@,
        ShapeType::Oval => "oval"@,
        ShapeType::OvalRect => "ovalRect"@,
        ShapeType::Line => "line"@,
        ShapeType::Unknown => "rect"@,
    }
}

/// The name a shape type is exported under; an unknown shape is a rect.
pub fn shape_type_name(t: &ShapeType) -> (r: &'static str)
    ensures
        r@ == shape_type_text(*t),
{
    match t {
        ShapeType::Rect => "rect",
        ShapeType::Oval => "oval",
        ShapeType::OvalRect => "ovalRect",
        ShapeType::Line => "line",
        ShapeType::Unknown => "rect",
    }
}


/// The lines of a shape's `shape` section.
pub open spec fn shape_lines(sm: ShapeMember) -> Seq<Seq<char>> {
    let info = sm.shape_info;
    seq![
        kv("shape_type"@, shape_type_text(info.shape_type)),
        kv(
            "rect"@,
            seq!['['] + int_to_decimal(info.rect_left as int) + seq![',', ' '] + int_to_decimal(info.rect_top as int)
                + seq![',', ' '] + int_to_decimal(info.rect_right as int) + seq![',', ' '] + int_to_decimal(
                info.rect_bottom as int,
            ) + seq![']'],
        ),
        kv("pattern"@, int_to_decimal(info.pattern as int)),
        kv("fore_color"@, int_to_decimal(info.fore_color as int)),
        kv("back_color"@, int_to_decimal(info.back_color as int)),
        kv("fill_type"@, int_to_decimal(info.fill_type as int)),
        kv("line_thickness"@, int_to_decimal(info.line_thickness as int)),
        kv("line_direction"@, int_to_decimal(info.line_direction as int)),
    ]
}

/// A shape member's YAML description after the member header.
pub open spec fn shape_yml(header: Seq<char>, sm: ShapeMember) -> Seq<char> {
    header + "type: shape\n\n"@ + section_text("shape"@, shape_lines(sm))
}

/// A shape member's YAML description; see `shape_yml`.
pub fn build_shape_yml(header: &str, sm: &ShapeMember) -> (r: String)
    ensures
        r@ == shape_yml(header@, *sm),
{
    let info = &sm.shape_info;
    let mut shape = Section::new("shape");
    shape.push(kv_line("shape_type", shape_type_name(&info.shape_type)));
    let mut rect = String::new();
    push_char(&mut rect, '[');
    rect.append(int_to_string(info.rect_left as i64).as_str());
    push_char(&mut rect, ',');
    push_char(&mut rect, ' ');
    rect.append(int_to_string(info.rect_top as i64).as_str());
    push_char(&mut rect, ',');
    push_char(&mut rect, ' ');
    rect.append(int_to_string(info.rect_right as i64).as_str());
    push_char(&mut rect, ',');
    push_char(&mut rect, ' ');
    rect.append(int_to_string(info.rect_bottom as i64).as_str());
    push_char(&mut rect, ']');
    assert(rect@ =~= seq!['['] + int_to_decimal(info.rect_left as int) + seq![',', ' '] + int_to_decimal(
        info.rect_top as int,
    ) + seq![',', ' '] + int_to_decimal(info.rect_right as int) + seq![',', ' '] + int_to_decimal(
        info.rect_bottom as int,
    ) + seq![']']);
    shape.push(kv_line("rect", rect.as_str()));
    shape.push(kv_line("pattern", int_to_string(info.pattern as i64).as_str()));
    shape.push(kv_line("fore_color", int_to_string(info.fore_color as i64).as_str()));
    shape.push(kv_line("back_color", int_to_string(info.back_color as i64).as_str()));
    shape.push(kv_line("fill_type", int_to_string(info.fill_type as i64).as_str()));
    shape.push(kv_line("line_thickness", int_to_string(info.line_thickness as i64).as_str()));
    shape.push(kv_line("line_direction", int_to_string(info.line_direction as i64).as_str()));
    assert(shape.lines_view() =~= shape_lines(*sm));
    let mut s = header.to_string();
    s.append("type: shape\n\n");
    s.append(shape.build().as_str());
    assert(s@ =~= shape_yml(header@, *sm));
    s
}

// ---- Member files ----

/// The stem of a member's exported files: its name made safe, or
/// `member_<number>` when nothing of the name is left.
pub open spec fn member_stem_text(number: u32, name: Seq<char>) -> Seq<char> {
    if sanitized_name(name).len() == 0 {
        "member_"@ + int_to_decimal(number as int)
    } else {
        sanitized_name(name)
    }
}

/// The stem of a member's exported files; see `member_stem_text`.
pub fn member_file_stem(number: u32, name: &str) -> (r: String)
    ensures
        r@ == member_stem_text(number, name@),
{
    let safe = sanitize_filename(name);
    if safe.as_str().unicode_len() == 0 {
        let mut s = String::from_str("member_");
        s.append(int_to_string(number as i64).as_str());
        return s;
    }
    safe
}

/// The header of a member's YAML file: its slot; its name where the file
/// name does not already give it exactly; its comments, if any.
pub open spec fn member_header_text(number: u32, name: Seq<char>, comments: Seq<char>) -> Seq<char> {
    "slot: "@ + int_to_decimal(number as int) + seq!['\n'] + (if name.len() > 0 && name != sanitized_name(
        name,
    ) {
        "name: "@ + yaml_text(name) + seq!['\n']
    } else {
        Seq::empty()
    }) + (if comments.len() > 0 {
        "comments: "@ + yaml_text(comments) + seq!['\n']
    } else {
        Seq::empty()
    })
}

/// The header of a member's YAML file; see `member_header_text`.
pub fn member_yml_header(number: u32, name: &str, comments: &str) -> (r: String)
    ensures
        r@ == member_header_text(number, name@, comments@),
{
    let safe = sanitize_filename(name);
    let name_differs = name.unicode_len() > 0 && !same_text(name, safe.as_str());
    let mut header = String::from_str("slot: ");
    header.append(int_to_string(number as i64).as_str());
    push_char(&mut header, '\n');
    let ghost after_slot = header@;
    if name_differs {
        header.append("name: ");
        header.append(yaml_string(name).as_str());
        push_char(&mut header, '\n');
    }
    let ghost after_name = header@;
    if comments.unicode_len() > 0 {
        header.append("comments: ");
        header.append(yaml_string(comments).as_str());
        push_char(&mut header, '\n');
    }
    assert(header@ =~= member_header_text(number, name@, comments@));
    header
}

// ---- Bitmaps as PNG ----

/// A bitmap's pixels as the exporter reads them: its size, its bit depth,
/// and its pixel bytes (palette indices, or RGBA at 32 bits).
pub struct Bitmap {
    pub width: u16,
    pub height: u16,
    pub bit_depth: u8,
    pub data: Vec<u8>,
}

/// An RGBA image of the `image` crate (`image::RgbaImage`), held opaquely:
/// its type's pixel bound is a trait Verus cannot take.
#[verifier::external_body]
pub struct RgbaBuffer {
    img: image::RgbaImage,
}

#[verifier::external_type_specification]
#[verifier::external_body]
pub struct ExImageError(image::ImageError);

/// The bytes an RGBA image holds, four a pixel, row by row.
pub uninterp spec fn rgba_pixels(img: RgbaBuffer) -> Seq<u8>;

/// The width and height an RGBA image was made with.
pub uninterp spec fn rgba_size(img: RgbaBuffer) -> (u32, u32);

/// The PNG file that the `image` crate's encoder writes for an RGBA image of
/// this size and these pixel bytes, or `None` where the encoder fails.
pub uninterp spec fn png_encoding(width: u32, height: u32, pixels: Seq<u8>) -> Option<Seq<u8>>;

/// `ImageBuffer::from_raw` for RGBA pixels of a size with no side 0. Its
/// source makes an image of the given size over the buffer exactly when the
/// buffer holds at least 4 · width · height bytes, and otherwise gives
/// `None`. It computes that count with checked multiplication, first 4 ·
/// width, then times the height; with both sides positive an overflow in
/// either step means a count above any buffer length, so the statement holds
/// then too. (With a side 0 the first step can overflow where the count is
/// 0, so such sizes are left out.)
#[verifier::external_body]
fn rgba_image_from_raw(width: u32, height: u32, data: Vec<u8>) -> (r: Option<RgbaBuffer>)
    requires
        width > 0,
        height > 0,
    ensures
        r is Some <==> 4 * width * height <= data.len(),
        r matches Some(img) ==> rgba_size(img) == (width, height) && rgba_pixels(img) == data@,
{
    match image::RgbaImage::from_raw(width, height, data) {
        Some(img) => Some(RgbaBuffer { img }),
        None => None,
    }
}

/// `ImageBuffer::write_to` with `ImageFormat::Png`, writing into a buffer in
/// memory: the bytes written, which are the PNG encoding of the image's size
/// and pixels, or the encoder's error.
#[verifier::external_body]
fn write_png(img: &RgbaBuffer) -> (r: Result<Vec<u8>, image::ImageError>)
    ensures
        match r {
            Ok(bytes) => png_encoding(rgba_size(*img).0, rgba_size(*img).1, rgba_pixels(*img)) == Some(bytes@),
            Err(_) => png_encoding(rgba_size(*img).0, rgba_size(*img).1, rgba_pixels(*img)) is None,
        },
{
    let mut buf: Vec<u8> = Vec::new();
    match img.img.write_to(&mut std::io::Cursor::new(&mut buf), image::ImageFormat::Png) {
        Ok(()) => Ok(buf),
        Err(e) => Err(e),
    }
}

/// The RGBA bytes a bitmap is exported with: its own bytes at 32 bits;
/// otherwise each palette index `i` becomes the gray `255 - i`, opaque, so
/// that any editor opens the file and the index can still be read back.
pub open spec fn export_rgba(bit_depth: u8, data: Seq<u8>) -> Seq<u8> {
    if bit_depth == 32 {
        data
    } else {
        Seq::new(4 * data.len(), |i: int| if i % 4 == 3 { 255u8 } else { (255 - data[i / 4]) as u8 })
    }
}

/// A bitmap as a PNG file: `None` for an empty bitmap, for pixel bytes too
/// few for its size, and where the encoder fails.
pub open spec fn bitmap_png(b: Bitmap) -> Option<Seq<u8>> {
    let px = export_rgba(b.bit_depth, b.data@);
    if b.data.len() == 0 || b.width == 0 || b.height == 0 {
        None
    } else if 4 * b.width * b.height > px.len() {
        None
    } else {
        png_encoding(b.width as u32, b.height as u32, px)
    }
}

/// A bitmap as a PNG file; see `bitmap_png`.
pub fn encode_png(bitmap: &Bitmap) -> (r: Option<Vec<u8>>)
    requires
        4 * bitmap.data.len() <= usize::MAX,
    ensures
        match bitmap_png(*bitmap) {
            Some(bytes) => r matches Some(v) && v@ == bytes,
            None => r is None,
        },
{
    if bitmap.data.len() == 0 || bitmap.width == 0 || bitmap.height == 0 {
        return None;
    }
    let rgba = if bitmap.bit_depth == 32 {
        let mut copy: Vec<u8> = Vec::new();
        let mut i: usize = 0;
        while i < bitmap.data.len()
            invariant
                i <= bitmap.data.len(),
                copy@ == bitmap.data@.take(i as int),
            decreases bitmap.data.len() - i,
        {
            copy.push(bitmap.data[i]);
            i = i + 1;
            assert(copy@ =~= bitmap.data@.take(i as int));
        }
        assert(bitmap.data@.take(bitmap.data.len() as int) =~= bitmap.data@);
        copy
    } else {
        let mut out: Vec<u8> = Vec::new();
        let ghost target = export_rgba(bitmap.bit_depth, bitmap.data@);
        let mut i: usize = 0;
        while i < bitmap.data.len()
            invariant
                i <= bitmap.data.len(),
                4 * bitmap.data.len() <= usize::MAX,
                bitmap.bit_depth != 32,
                target == export_rgba(bitmap.bit_depth, bitmap.data@),
                out@ == target.take(4 * i),
            decreases bitmap.data.len() - i,
        {
            let v = 255 - bitmap.data[i];
            out.push(v);
            out.push(v);
            out.push(v);
            out.push(255);
            assert(out@ =~= target.take(4 * (i + 1)));
            i = i + 1;
        }
        assert(target.take(4 * bitmap.data.len()) =~= target);
        out
    };
    let img = match rgba_image_from_raw(bitmap.width as u32, bitmap.height as u32, rgba) {
        Some(img) => img,
        None => {
            return None;
        },
    };
    match write_png(&img) {
        Ok(bytes) => Some(bytes),
        Err(_) => None,
    }
}

} // verus!
