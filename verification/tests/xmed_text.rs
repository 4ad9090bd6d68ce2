use vm_rust::xmed_text::{xmed_member_font, xmed_text_box, SpanFont, XmedBoxSource};

fn source(box_type: u32, styled: (i32, i32), page_height: i32, info: (u32, u32)) -> XmedBoxSource {
    XmedBoxSource {
        styled_width: styled.0,
        styled_height: styled.1,
        page_height,
        info_width: info.0,
        info_height: info.1,
        box_type,
        raw_size: None,
    }
}

#[test]
fn a_fixed_box_that_grew_by_less_than_a_line_keeps_the_page_height() {
    // Two lines laid out 36 high (18 a line); the info height grew to 48.
    assert_eq!(xmed_text_box(&source(2, (52, 0), 36, (0, 48)), "Time\r12:00"), (52, 36));
}

#[test]
fn a_fixed_box_takes_its_info_height_when_it_is_authored() {
    assert_eq!(xmed_text_box(&source(2, (200, 0), 331, (0, 331)), "a\rb\rc"), (200, 331));
    // At least a full line past the page: 107 over a 68 page of 34-high lines.
    assert_eq!(xmed_text_box(&source(2, (90, 0), 68, (0, 107)), "one\r\ntwo"), (90, 107));
    // An info height below the page gives the page.
    assert_eq!(xmed_text_box(&source(3, (90, 0), 361, (0, 348)), "x"), (90, 361));
    // No info height: one line of the page.
    assert_eq!(xmed_text_box(&source(2, (90, 0), 36, (0, 0)), "a\n\nb"), (90, 18));
}

#[test]
fn an_adjusting_box_uses_the_page_only_for_text_with_line_breaks() {
    assert_eq!(xmed_text_box(&source(0, (120, 483), 375, (0, 0)), "credits\nmore"), (120, 375));
    assert_eq!(xmed_text_box(&source(0, (120, 0), 36, (0, 108)), "one long paragraph"), (120, 108));
    assert_eq!(xmed_text_box(&source(0, (0, 40), 36, (64, 0)), "plain"), (64, 40));
}

#[test]
fn missing_sizes_fall_back_to_raw_settings_then_defaults() {
    let mut src = source(0, (0, 0), 0, (0, 0));
    assert_eq!(xmed_text_box(&src, ""), (100, 20));
    src.raw_size = Some((30, 40));
    assert_eq!(xmed_text_box(&src, ""), (30, 40));
    src.raw_size = Some((0, -5));
    assert_eq!(xmed_text_box(&src, ""), (100, 20));
}

#[test]
fn the_member_font_comes_from_the_first_span_corrected_to_the_point_size() {
    let spans = vec![
        SpanFont { font_face: Some("Verdana".to_string()), font_size: Some(0) },
        SpanFont { font_face: None, font_size: Some(24) },
        SpanFont { font_face: None, font_size: Some(10) },
    ];
    assert_eq!(xmed_member_font(None, &spans, None), ("Verdana".to_string(), 24));
    assert_eq!(xmed_member_font(None, &spans, Some(12)), ("Verdana".to_string(), 12));
    assert_eq!(xmed_member_font(Some(9), &spans, Some(0)), ("Verdana".to_string(), 9));
    let unnamed = vec![SpanFont { font_face: None, font_size: Some(14) }];
    assert_eq!(xmed_member_font(None, &unnamed, Some(14)), ("Arial".to_string(), 14));
    assert_eq!(xmed_member_font(Some(30), &Vec::new(), None), ("Arial".to_string(), 12));
}
