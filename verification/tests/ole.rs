use vm_rust::ole::{
    extract_text_from_xmedia, find_vector_shape_payload, is_havok_ole, is_physx_ole, is_shockwave3d_ole, is_swa_ole,
    try_parse_swf,
};

fn typed(t: &str, extra: usize) -> Vec<u8> {
    let mut v = (t.len() as u32).to_be_bytes().to_vec();
    v.extend_from_slice(t.as_bytes());
    v.extend(std::iter::repeat(0u8).take(extra));
    v
}

#[test]
fn xtra_type_strings() {
    assert!(is_shockwave3d_ole(&typed("shockwave3d", 0)));
    assert!(!is_shockwave3d_ole(&typed("Shockwave3D", 0)));
    assert!(is_swa_ole(&typed("swa", 0)));
    assert!(!is_swa_ole(&typed("swa", 0)[..6]));
    assert!(is_havok_ole(&typed("HaVoK", 0)));
    assert!(!is_havok_ole(&typed("havok!", 0)));
    assert!(is_physx_ole(&typed("Physics", 0)));
    assert!(!is_physx_ole(&typed("physic", 4)));
    // A length past the data, or zero.
    let mut long = typed("swa", 4);
    long[3] = 40;
    assert!(!is_swa_ole(&long));
    assert!(!is_havok_ole(&[0, 0, 0, 0, 1, 2, 3, 4]));
}

#[test]
fn styled_text_between_markers() {
    let data = [1u8, 0x2c, b' ', 0x01, b'h', b'i', b'\t', b'!', b' ', 0x03, 9];
    assert_eq!(extract_text_from_xmedia(&data), Some("hi\t!".to_string()));
    // A blank block is passed over.
    let data = [0x2c, b' ', b'\n', 0x03, 0x2c, b'o', b'k', 0x03];
    assert_eq!(extract_text_from_xmedia(&data), Some("ok".to_string()));
    // A block without its end marker.
    assert_eq!(extract_text_from_xmedia(&[0x2c, b'a', b'b']), None);
    assert_eq!(extract_text_from_xmedia(&[]), None);
}

#[test]
fn flash_movies_at_the_start_or_after_a_wrapper() {
    assert_eq!(try_parse_swf(b"FWS\x08rest".to_vec()), Some(b"FWS\x08rest".to_vec()));
    let mut wrapped = vec![0u8; 12];
    wrapped.extend_from_slice(b"CWS1234");
    assert_eq!(try_parse_swf(wrapped.clone()), Some(b"CWS1234".to_vec()));
    assert_eq!(try_parse_swf(wrapped[..15].to_vec()), None);
    assert_eq!(try_parse_swf(b"GWS".to_vec()), None);
    assert_eq!(try_parse_swf(b"FW".to_vec()), None);
}

#[test]
fn vector_shape_payload_follows_the_flsh_code() {
    let mut raw = typed("vectorShape", 0);
    raw.extend_from_slice(&[0, 0, 0, 9]);
    raw.extend_from_slice(b"FLSH");
    raw.extend_from_slice(&[1, 2, 3]);
    assert_eq!(find_vector_shape_payload(&raw), Some(23));
    let mut wrong = raw.clone();
    wrong[19] = b'X';
    assert_eq!(find_vector_shape_payload(&wrong), None);
    assert_eq!(find_vector_shape_payload(&typed("vectorshape", 12)), None);
    assert_eq!(find_vector_shape_payload(&raw[..20]), None);
}
