//! The member-level font and the authored box of a text member stored as
//! XMED styled text: the font of the style covering the text's start (its
//! size corrected to the styled text's point size), and the box's width and
//! height from the styled text's layout, the member's text info and the
//! older raw settings, in that order of preference.
use vstd::prelude::*;
use vstd::string::*;

verus! {

/// Whether a character ends a line.
pub open spec fn is_break(c: char) -> bool {
    c == '\r' || c == '\n'
}

/// How many lines with text the text has: runs of characters between line
/// breaks (a CR LF pair or a lone CR or LF), empty lines not counted.
pub open spec fn text_lines(s: Seq<char>) -> nat
    decreases s.len(),
{
    if s.len() == 0 {
        0
    } else {
        text_lines(s.drop_last()) + if !is_break(s.last()) && (s.len() == 1 || is_break(s[s.len() - 2])) {
            1nat
        } else {
            0nat
        }
    }
}

/// The lines a box holds: the text's lines with text, at least one.
pub open spec fn box_lines(s: Seq<char>) -> nat {
    if text_lines(s) == 0 {
        1
    } else {
        text_lines(s)
    }
}

pub open spec fn has_break(s: Seq<char>) -> bool {
    exists|i: int| 0 <= i < s.len() && is_break(#[trigger] s[i])
}

/// What the box of a text member is decided from: the styled text's width,
/// height and laid-out page height; the text info's width, height and box
/// type (0 `#adjust`, 2 `#fixed`, 3 `#limit`); and the width and height of
/// the older raw settings, where they can be read.
pub struct XmedBoxSource {
    pub styled_width: i32,
    pub styled_height: i32,
    pub page_height: i32,
    pub info_width: u32,
    pub info_height: u32,
    pub box_type: u32,
    pub raw_size: Option<(i32, i32)>,
}

/// The height a box that does not adjust to its text takes from the laid-out
/// page, 0 where there is none: the page height where the info height is
/// below it; the info height where it is the page height, a whole number of
/// lines of the page, or at least a line past the page; the page height
/// otherwise; a line of the page where the info height is 0.
pub open spec fn page_box_height(src: XmedBoxSource, text: Seq<char>) -> u16 {
    if src.box_type != 0 && src.page_height > 0 {
        let info_h = src.info_height as int;
        let page_h = src.page_height as int;
        let per_line = page_h / (box_lines(text) as int);
        if info_h > 0 && per_line > 0 {
            if info_h < page_h {
                page_h as u16
            } else if info_h == page_h || info_h % per_line == 0 || info_h - page_h >= per_line {
                info_h as u16
            } else {
                page_h as u16
            }
        } else if per_line > 0 {
            per_line as u16
        } else {
            0
        }
    } else {
        0
    }
}

/// The box before the last fallbacks: the width from the styled text, else
/// the text info; the height from the page (see `page_box_height`), else
/// the page height for an adjusting box whose text has line breaks, else
/// the styled text's height, else the text info's.
pub open spec fn first_box(src: XmedBoxSource, text: Seq<char>) -> (u16, u16) {
    let w = if src.styled_width > 0 {
        src.styled_width as u16
    } else if src.info_width > 0 {
        src.info_width as u16
    } else {
        0u16
    };
    let from_page = page_box_height(src, text);
    let h = if from_page > 0 {
        from_page
    } else if src.box_type == 0 && src.page_height > 0 && has_break(text) {
        src.page_height as u16
    } else if src.styled_height > 0 {
        src.styled_height as u16
    } else if src.info_height > 0 {
        src.info_height as u16
    } else {
        0u16
    };
    (w, h)
}

/// The authored box of the member: `first_box`, then, for a side still 0,
/// the older raw settings' size where it is positive, then for the height
/// the page height, and finally 100 by 20.
pub open spec fn xmed_box(src: XmedBoxSource, text: Seq<char>) -> (u16, u16) {
    let (w0, h0) = first_box(src, text);
    let (w1, h1) = match src.raw_size {
        Some((rw, rh)) => if w0 == 0 || h0 == 0 {
            (
                if w0 == 0 && rw > 0 {
                    rw as u16
                } else {
                    w0
                },
                if h0 == 0 && rh > 0 {
                    rh as u16
                } else {
                    h0
                },
            )
        } else {
            (w0, h0)
        },
        None => (w0, h0),
    };
    let h2 = if h1 == 0 && src.page_height > 0 {
        src.page_height as u16
    } else {
        h1
    };
    (if w1 == 0 {
        100u16
    } else {
        w1
    }, if h2 == 0 {
        20u16
    } else {
        h2
    })
}

fn text_lines_exec(s: &str) -> (n: usize)
    ensures
        n == text_lines(s@),
{
    let len = s.unicode_len();
    let mut n: usize = 0;
    let mut i: usize = 0;
    let mut prev_break = true;
    while i < len
        invariant
            len == s@.len(),
            i <= len,
            n == text_lines(s@.take(i as int)),
            n <= i,
            prev_break == (i == 0 || is_break(s@[i - 1])),
        decreases len - i,
    {
        let c = s.get_char(i);
        let brk = c == '\r' || c == '\n';
        proof {
            let t = s@.take(i + 1);
            assert(t.drop_last() =~= s@.take(i as int));
            assert(t.last() == c);
            if i > 0 {
                assert(t[t.len() - 2] == s@[i - 1]);
            }
        }
        if !brk && prev_break {
            n = n + 1;
        }
        prev_break = brk;
        i = i + 1;
    }
    assert(s@.take(len as int) =~= s@);
    n
}

fn has_break_exec(s: &str) -> (r: bool)
    ensures
        r == has_break(s@),
{
    let len = s.unicode_len();
    let mut i: usize = 0;
    while i < len
        invariant
            len == s@.len(),
            i <= len,
            forall|j: int| 0 <= j < i ==> !is_break(#[trigger] s@[j]),
        decreases len - i,
    {
        let c = s.get_char(i);
        if c == '\r' || c == '\n' {
            return true;
        }
        i = i + 1;
    }
    false
}

fn page_box_height_exec(src: &XmedBoxSource, text: &str) -> (h: u16)
    ensures
        h == page_box_height(*src, text@),
{
    if src.box_type != 0 && src.page_height > 0 {
        let raw_lines = text_lines_exec(text);
        let info_h = src.info_height;
        let page_h = src.page_height as u32;
        let per_line: u32 = if raw_lines > 0xffff_ffff {
            proof {
                assert(page_h as int / box_lines(text@) as int == 0) by (nonlinear_arith)
                    requires
                        page_h < box_lines(text@),
                ;
            }
            0
        } else {
            let lines: u32 = if raw_lines == 0 {
                1
            } else {
                raw_lines as u32
            };
            page_h / lines
        };
        if info_h > 0 && per_line > 0 {
            if info_h < page_h {
                #[verifier::truncate]
                (page_h as u16)
            } else if info_h == page_h || info_h % per_line == 0 || info_h - page_h >= per_line {
                #[verifier::truncate]
                (info_h as u16)
            } else {
                #[verifier::truncate]
                (page_h as u16)
            }
        } else if per_line > 0 {
            #[verifier::truncate]
            (per_line as u16)
        } else {
            0
        }
    } else {
        0
    }
}

/// The authored box (width, height) of a text member stored as XMED styled
/// text; see `xmed_box`.
pub fn xmed_text_box(src: &XmedBoxSource, text: &str) -> (r: (u16, u16))
    ensures
        r == xmed_box(*src, text@),
{
    let w0: u16 = if src.styled_width > 0 {
        #[verifier::truncate]
        (src.styled_width as u16)
    } else if src.info_width > 0 {
        #[verifier::truncate]
        (src.info_width as u16)
    } else {
        0
    };
    let from_page = page_box_height_exec(src, text);
    let h0: u16 = if from_page > 0 {
        from_page
    } else if src.box_type == 0 && src.page_height > 0 && has_break_exec(text) {
        #[verifier::truncate]
        (src.page_height as u16)
    } else if src.styled_height > 0 {
        #[verifier::truncate]
        (src.styled_height as u16)
    } else if src.info_height > 0 {
        #[verifier::truncate]
        (src.info_height as u16)
    } else {
        0
    };
    let (mut w, mut h) = (w0, h0);
    if w0 == 0 || h0 == 0 {
        if let Some((rw, rh)) = src.raw_size {
            if w0 == 0 && rw > 0 {
                w = #[verifier::truncate]
                (rw as u16);
            }
            if h0 == 0 && rh > 0 {
                h = #[verifier::truncate]
                (rh as u16);
            }
        }
    }
    if h == 0 && src.page_height > 0 {
        h = #[verifier::truncate]
        (src.page_height as u16);
    }
    if w == 0 {
        w = 100;
    }
    if h == 0 {
        h = 20;
    }
    (w, h)
}

// ---- The member's font ----

/// What a styled span's style names of its font: the face and the size.
pub struct SpanFont {
    pub font_face: Option<String>,
    pub font_size: Option<i32>,
}

/// The largest positive size among the spans, if any has one.
pub open spec fn max_positive_size(spans: Seq<SpanFont>) -> Option<i32>
    decreases spans.len(),
{
    if spans.len() == 0 {
        None
    } else {
        let rest = max_positive_size(spans.drop_last());
        match spans.last().font_size {
            Some(v) => if v > 0 {
                match rest {
                    Some(m) => if v > m {
                        Some(v)
                    } else {
                        Some(m)
                    },
                    None => Some(v),
                }
            } else {
                rest
            },
            None => rest,
        }
    }
}

/// The member's font size from the styled text: the text's default size
/// where it records one, else the first span's size where it is positive,
/// else the largest positive span size, else 12 (12 without spans); then,
/// where the styled text's point size is given, positive, and differs from
/// a positive size, that point size.
pub open spec fn xmed_font_size(default_size: Option<u16>, spans: Seq<SpanFont>, stxt_size: Option<u16>) -> u16 {
    let chosen: u16 = if spans.len() == 0 {
        12u16
    } else {
        match default_size {
            Some(d) => d,
            None => match spans[0].font_size {
                Some(v) => if v > 0 {
                    v as u16
                } else {
                    match max_positive_size(spans) {
                        Some(m) => m as u16,
                        None => 12u16,
                    }
                },
                None => match max_positive_size(spans) {
                    Some(m) => m as u16,
                    None => 12u16,
                },
            },
        }
    };
    match stxt_size {
        Some(st) => if st > 0 && st != chosen && chosen > 0 {
            st
        } else {
            chosen
        },
        None => chosen,
    }
}

/// The member's font: the first span's face, else Arial.
pub open spec fn xmed_font_name(spans: Seq<SpanFont>) -> Seq<char> {
    if spans.len() > 0 && spans[0].font_face is Some {
        spans[0].font_face->0@
    } else {
        "Arial"@
    }
}

fn max_positive_size_exec(spans: &Vec<SpanFont>) -> (r: Option<i32>)
    ensures
        r == max_positive_size(spans@),
{
    let mut best: Option<i32> = None;
    let mut i: usize = 0;
    while i < spans.len()
        invariant
            i <= spans.len(),
            best == max_positive_size(spans@.take(i as int)),
        decreases spans.len() - i,
    {
        proof {
            assert(spans@.take(i + 1).drop_last() =~= spans@.take(i as int));
        }
        if let Some(v) = spans[i].font_size {
            if v > 0 {
                best = match best {
                    Some(m) => if v > m {
                        Some(v)
                    } else {
                        Some(m)
                    },
                    None => Some(v),
                };
            }
        }
        i = i + 1;
    }
    assert(spans@.take(spans.len() as int) =~= spans@);
    best
}

/// The member-level font name and size of a text member stored as XMED
/// styled text; see `xmed_font_name` and `xmed_font_size`.
pub fn xmed_member_font(default_size: Option<u16>, spans: &Vec<SpanFont>, stxt_size: Option<u16>) -> (r: (
    String,
    u16,
))
    ensures
        r.0@ == xmed_font_name(spans@),
        r.1 == xmed_font_size(default_size, spans@, stxt_size),
{
    let (name, chosen) = if spans.len() == 0 {
        (String::from_str("Arial"), 12u16)
    } else {
        let name = match &spans[0].font_face {
            Some(f) => f.clone(),
            None => String::from_str("Arial"),
        };
        let fallback: u16 = match max_positive_size_exec(spans) {
            Some(m) => #[verifier::truncate]
            (m as u16),
            None => 12,
        };
        let size: u16 = match default_size {
            Some(d) => d,
            None => match spans[0].font_size {
                Some(v) => if v > 0 {
                    #[verifier::truncate]
                    (v as u16)
                } else {
                    fallback
                },
                None => fallback,
            },
        };
        (name, size)
    };
    let size = match stxt_size {
        Some(st) => if st > 0 && st != chosen && chosen > 0 {
            st
        } else {
            chosen
        },
        None => chosen,
    };
    (name, size)
}

} // verus!
