//! Recognizing what an Xtra (OLE) cast member holds from its raw data: a
//! length-prefixed type string names the Xtra, and text members keep their
//! text between marker bytes.
use vstd::prelude::*;
use crate::commands::{trim_text, trimmed};
use crate::text::push_char;

verus! {

/// A big-endian 32-bit number at the start of the bytes.
pub open spec fn be_u32(raw: Seq<u8>) -> int {
    raw[0] as int * 16777216 + raw[1] as int * 65536 + raw[2] as int * 256 + raw[3] as int
}

/// The type string's bytes: after a big-endian 32-bit length, that many
/// bytes; none where the length is 0 or the data is shorter.
pub open spec fn ole_type_bytes(raw: Seq<u8>) -> Option<Seq<u8>> {
    if raw.len() < 4 {
        None
    } else {
        let n = be_u32(raw);
        if n == 0 || raw.len() < 4 + n {
            None
        } else {
            Some(raw.subrange(4, 4 + n))
        }
    }
}

/// The bytes are those of the ASCII text `t`.
pub open spec fn is_text(b: Seq<u8>, t: Seq<char>) -> bool {
    b.len() == t.len() && forall|i: int| 0 <= i < b.len() ==> b[i] as u32 == #[trigger] t[i] as u32
}

/// A byte with ASCII capitals made small.
pub open spec fn lower_byte(b: u8) -> u8 {
    if 65 <= b && b <= 90 {
        (b + 32) as u8
    } else {
        b
    }
}

/// The bytes are those of the lowercase ASCII text `t`, ignoring ASCII case.
pub open spec fn is_text_ignoring_case(b: Seq<u8>, t: Seq<char>) -> bool {
    b.len() == t.len() && forall|i: int| 0 <= i < b.len() ==> lower_byte(b[i]) as u32 == #[trigger] t[i] as u32
}

/// The type string is `t` (exactly, or ignoring ASCII case), and at most
/// `max` bytes long where `max` is given.
pub open spec fn typed_as(raw: Seq<u8>, t: Seq<char>, ignore_case: bool, max: Option<u64>) -> bool {
    match ole_type_bytes(raw) {
        Some(b) => (match max {
            Some(m) => b.len() <= m,
            None => true,
        }) && if ignore_case {
            is_text_ignoring_case(b, t)
        } else {
            is_text(b, t)
        },
        None => false,
    }
}

fn be_u32_exec(raw: &[u8]) -> (n: u64)
    requires
        raw@.len() >= 4,
    ensures
        n == be_u32(raw@),
{
    (raw[0] as u64) * 16777216 + (raw[1] as u64) * 65536 + (raw[2] as u64) * 256 + (raw[3] as u64)
}

/// Whether the type string equals the ASCII text `t`, exactly or ignoring
/// ASCII case, and is at most `max` bytes long where `max` is given.
fn type_string_is(raw: &[u8], t: &str, ignore_case: bool, max: Option<u64>) -> (r: bool)
    ensures
        r == typed_as(raw@, t@, ignore_case, max),
{
    if raw.len() < 4 {
        return false;
    }
    let n = be_u32_exec(raw);
    if n == 0 || (raw.len() as u64) < 4 + n {
        return false;
    }
    if let Some(m) = max {
        if n > m {
            return false;
        }
    }
    let ghost b = raw@.subrange(4, 4 + n as int);
    let len = n as usize;
    if len != t.unicode_len() {
        return false;
    }
    let mut i: usize = 0;
    while i < len
        invariant
            len == t@.len(),
            len == b.len(),
            b == raw@.subrange(4, 4 + len as int),
            4 + len <= raw.len(),
            i <= len,
            forall|j: int| 0 <= j < i ==> (if ignore_case {
                lower_byte(b[j]) as u32 == #[trigger] t@[j] as u32
            } else {
                b[j] as u32 == t@[j] as u32
            }),
        decreases len - i,
    {
        let byte = raw[4 + i];
        let c = byte_case(byte, ignore_case);
        if c != t.get_char(i) as u32 {
            return false;
        }
        i = i + 1;
    }
    true
}

fn byte_case(b: u8, ignore_case: bool) -> (r: u32)
    ensures
        r == (if ignore_case {
            lower_byte(b) as u32
        } else {
            b as u32
        }),
{
    if ignore_case && 65 <= b && b <= 90 {
        (b + 32) as u32
    } else {
        b as u32
    }
}

/// A Shockwave 3D member: at least 15 bytes, typed `shockwave3d`.
pub fn is_shockwave3d_ole(raw: &[u8]) -> (r: bool)
    ensures
        r == (raw@.len() >= 15 && typed_as(raw@, "shockwave3d"@, false, None)),
{
    if raw.len() < 15 {
        return false;
    }
    type_string_is(raw, "shockwave3d", false, None)
}

/// A Shockwave Audio member: at least 7 bytes, typed `swa`.
pub fn is_swa_ole(raw: &[u8]) -> (r: bool)
    ensures
        r == (raw@.len() >= 7 && typed_as(raw@, "swa"@, false, None)),
{
    if raw.len() < 7 {
        return false;
    }
    type_string_is(raw, "swa", false, None)
}

/// A Havok physics member: at least 8 bytes, typed `havok` in any ASCII
/// case, the type string at most 256 bytes. (Bytes equal to `havok`
/// ignoring ASCII case are ASCII, so they always read as text.)
pub fn is_havok_ole(raw: &[u8]) -> (r: bool)
    ensures
        r == (raw@.len() >= 8 && typed_as(raw@, "havok"@, true, Some(256))),
{
    if raw.len() < 8 {
        return false;
    }
    type_string_is(raw, "havok", true, Some(256))
}

/// A PhysX (AGEIA) physics member: at least 8 bytes, typed `physics` in any
/// ASCII case, the type string at most 256 bytes.
pub fn is_physx_ole(raw: &[u8]) -> (r: bool)
    ensures
        r == (raw@.len() >= 8 && typed_as(raw@, "physics"@, true, Some(256))),
{
    if raw.len() < 8 {
        return false;
    }
    type_string_is(raw, "physics", true, Some(256))
}

// ---- Text in styled-text data ----

/// The character a byte of a text block keeps: printable ASCII, tab, CR and
/// LF; other bytes are dropped.
pub open spec fn kept_char(b: u8) -> Option<char> {
    if 0x20 <= b && b <= 0x7e {
        Some(b as char)
    } else if b == 0x09 {
        Some('\t')
    } else if b == 0x0d {
        Some('\r')
    } else if b == 0x0a {
        Some('\n')
    } else {
        None
    }
}

/// The characters a run of bytes keeps.
pub open spec fn kept_chars(b: Seq<u8>) -> Seq<char>
    decreases b.len(),
{
    if b.len() == 0 {
        Seq::empty()
    } else {
        kept_chars(b.drop_last()) + match kept_char(b.last()) {
            Some(c) => seq![c],
            None => Seq::empty(),
        }
    }
}

/// The first text block from byte `i` on: a block runs from a `0x2C` byte
/// to the next `0x03` byte; its kept characters, trimmed, are the text
/// where they are not empty, else the search goes on after the block. No
/// text where the data ends, or a block has no end. `start` is where the
/// block being read began, if one is.
pub open spec fn xmedia_text_from(data: Seq<u8>, i: int, start: Option<int>) -> Option<Seq<char>>
    decreases data.len() - i,
{
    if i < 0 || i >= data.len() {
        None
    } else {
        match start {
            None => if data[i] == 0x2c {
                xmedia_text_from(data, i + 1, Some(i + 1))
            } else {
                xmedia_text_from(data, i + 1, None)
            },
            Some(s) => if data[i] == 0x03 {
                let t = trimmed(kept_chars(data.subrange(s, i)));
                if t.len() > 0 {
                    Some(t)
                } else {
                    xmedia_text_from(data, i + 1, None)
                }
            } else {
                xmedia_text_from(data, i + 1, Some(s))
            },
        }
    }
}

/// The text of styled-text data; see `xmedia_text_from`.
pub fn extract_text_from_xmedia(data: &[u8]) -> (r: Option<String>)
    ensures
        match xmedia_text_from(data@, 0, None) {
            Some(t) => r matches Some(s) && s@ == t,
            None => r is None,
        },
{
    let mut i: usize = 0;
    let mut in_block = false;
    let mut start: usize = 0;
    let mut text = String::new();
    while i < data.len()
        invariant
            i <= data.len(),
            in_block ==> start <= i,
            in_block ==> text@ == kept_chars(data@.subrange(start as int, i as int)),
            xmedia_text_from(data@, 0, None) == xmedia_text_from(
                data@,
                i as int,
                if in_block {
                    Some(start as int)
                } else {
                    None
                },
            ),
        decreases data.len() - i,
    {
        let b = data[i];
        if !in_block {
            if b == 0x2c {
                in_block = true;
                start = i + 1;
                text = String::new();
                assert(data@.subrange(start as int, start as int) =~= Seq::<u8>::empty());
            }
        } else if b == 0x03 {
            let t = trim_text(text.as_str());
            if t.unicode_len() > 0 {
                return Some(t);
            }
            in_block = false;
        } else {
            let ghost before = data@.subrange(start as int, i as int);
            assert(data@.subrange(start as int, i + 1).drop_last() =~= before);
            if 0x20 <= b && b <= 0x7e {
                push_char(&mut text, b as char);
            } else if b == 0x09 {
                push_char(&mut text, '\t');
            } else if b == 0x0d {
                push_char(&mut text, '\r');
            } else if b == 0x0a {
                push_char(&mut text, '\n');
            }
            assert(text@ =~= kept_chars(data@.subrange(start as int, i + 1)));
        }
        i = i + 1;
    }
    None
}

// ---- Flash and vector shapes ----

/// Three bytes from `i` are a SWF signature: `FWS`, `CWS` or `ZWS`.
pub open spec fn swf_signature_at(b: Seq<u8>, i: int) -> bool {
    0 <= i && i + 3 <= b.len() && (b[i] == 0x46 || b[i] == 0x43 || b[i] == 0x5a) && b[i + 1] == 0x57 && b[i + 2]
        == 0x53
}

/// Where a Flash movie starts in a member's data: at the start, or, in
/// data of more than 15 bytes, after a 12-byte wrapper.
pub open spec fn swf_start(b: Seq<u8>) -> Option<int> {
    if b.len() >= 3 && swf_signature_at(b, 0) {
        Some(0)
    } else if b.len() > 15 && swf_signature_at(b, 12) {
        Some(12)
    } else {
        None
    }
}

fn signature_at(b: &[u8], i: usize) -> (r: bool)
    requires
        i + 3 <= b@.len(),
    ensures
        r == swf_signature_at(b@, i as int),
{
    (b[i] == 0x46 || b[i] == 0x43 || b[i] == 0x5a) && b[i + 1] == 0x57 && b[i + 2] == 0x53
}

/// The Flash movie a member's data holds, if it holds one; see
/// `swf_start`.
pub fn try_parse_swf(bytes: Vec<u8>) -> (r: Option<Vec<u8>>)
    ensures
        match swf_start(bytes@) {
            Some(i) => r matches Some(v) && v@ == bytes@.skip(i),
            None => r is None,
        },
{
    if bytes.len() < 3 {
        return None;
    }
    if signature_at(&bytes, 0) {
        assert(bytes@.skip(0) =~= bytes@);
        return Some(bytes);
    }
    if bytes.len() > 15 && signature_at(&bytes, 12) {
        let mut rest: Vec<u8> = Vec::new();
        let mut i: usize = 12;
        while i < bytes.len()
            invariant
                12 <= i <= bytes.len(),
                rest@ == bytes@.subrange(12, i as int),
            decreases bytes.len() - i,
        {
            rest.push(bytes[i]);
            i = i + 1;
            assert(rest@ =~= bytes@.subrange(12, i as int));
        }
        assert(bytes@.skip(12) =~= bytes@.subrange(12, bytes.len() as int));
        return Some(rest);
    }
    None
}

/// Where a vector shape's FLSH payload starts in an Xtra member's data: the
/// data has at least 15 bytes and is typed `vectorShape`, and after the type
/// string come a 4-byte size and the `FLSH` four-character code.
pub open spec fn vector_shape_payload_start(raw: Seq<u8>) -> Option<int> {
    if raw.len() < 15 || !typed_as(raw, "vectorShape"@, false, None) {
        None
    } else {
        let start = 4 + be_u32(raw);
        if raw.len() < start + 8 {
            None
        } else if raw[start + 4] == 0x46 && raw[start + 5] == 0x4c && raw[start + 6] == 0x53 && raw[start + 7] == 0x48 {
            Some(start + 8)
        } else {
            None
        }
    }
}

/// Where a vector shape's FLSH payload starts; see
/// `vector_shape_payload_start`. (A type string equal to `vectorShape` is
/// ASCII, so it always reads as text.)
pub fn find_vector_shape_payload(raw: &[u8]) -> (r: Option<usize>)
    ensures
        match vector_shape_payload_start(raw@) {
            Some(i) => r == Some(i as usize),
            None => r is None,
        },
{
    if raw.len() < 15 || !type_string_is(raw, "vectorShape", false, None) {
        return None;
    }
    let start = 4 + be_u32_exec(raw);
    if (raw.len() as u64) < start + 8 {
        return None;
    }
    let s = start as usize;
    if raw[s + 4] == 0x46 && raw[s + 5] == 0x4c && raw[s + 6] == 0x53 && raw[s + 7] == 0x48 {
        Some(s + 8)
    } else {
        None
    }
}

} // verus!
