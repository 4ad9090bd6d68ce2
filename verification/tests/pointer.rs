use vm_rust::commands::{press_on_sprites, press_pointer, release_pointer, PointerState, SpriteUnderPointer};

fn idle() -> PointerState {
    PointerState {
        mouse_loc: (0, 0),
        mouse_down: false,
        click_loc: (0, 0),
        is_double_click: false,
        last_mouse_down_time: 1_000,
        click_on_sprite: 0,
        drag_offset: (0, 0),
        keyboard_focus_sprite: -1,
        mouse_down_sprite: -1,
    }
}

#[test]
fn a_press_within_500_ms_is_a_double_click() {
    let mut s = idle();
    press_pointer(&mut s, 5, 6, 1_499);
    assert!(s.is_double_click);
    assert!(s.mouse_down);
    assert_eq!(s.click_loc, (5, 6));
    assert_eq!(s.last_mouse_down_time, 1_499);
    press_pointer(&mut s, 5, 6, 1_999);
    assert!(!s.is_double_click);
}

#[test]
fn a_press_on_sprites_grabs_focuses_and_targets() {
    let mut s = idle();
    let top = SpriteUnderPointer { number: 4, moveable: true, loc: (100, 50), editable_field: true };
    press_on_sprites(&mut s, 90, 45, 5_000, Some(top), Some(2));
    assert_eq!(s.click_on_sprite, 4);
    assert_eq!(s.drag_offset, (10, 5));
    assert_eq!(s.keyboard_focus_sprite, 4);
    assert_eq!(s.mouse_down_sprite, 2);
    let fixed = SpriteUnderPointer { number: 3, moveable: false, loc: (0, 0), editable_field: false };
    press_on_sprites(&mut s, 1, 1, 9_000, Some(fixed), None);
    assert_eq!(s.click_on_sprite, 3);
    assert_eq!(s.drag_offset, (10, 5));
    assert_eq!(s.keyboard_focus_sprite, 4);
    assert_eq!(s.mouse_down_sprite, -1);
    press_on_sprites(&mut s, 1, 1, 9_100, None, None);
    assert_eq!(s.click_on_sprite, 0);
    assert!(s.is_double_click);
    assert_eq!(release_pointer(&mut s, 7, 8), -1);
    assert!(!s.mouse_down);
    assert_eq!(s.mouse_loc, (7, 8));
}

#[test]
fn the_release_goes_to_the_sprite_that_took_the_press() {
    let mut s = idle();
    press_on_sprites(&mut s, 1, 1, 2_000, None, Some(6));
    assert_eq!(release_pointer(&mut s, 2, 2), 6);
    assert_eq!(s.mouse_down_sprite, -1);
}
