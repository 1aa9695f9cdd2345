use bse::color::Color;
use bse::ids::{AssetId, CommentId, ElementId, PeerId, ProjectId, UserId};

#[test]
fn brand_yellow_packed() {
    let c = Color::brand_yellow();
    assert_eq!(c.to_rgba_u32(), 0xFFD0_2FFF);
}

#[test]
fn from_to_u32_roundtrip() {
    let c = Color::from_rgba_u32(0x1234_5678);
    assert_eq!(c.to_rgba_u32(), 0x1234_5678);
}

#[test]
fn color_channels_unpack_most_significant_first() {
    let c = Color::from_rgba_u32(0x1234_5678);
    assert_eq!(c, Color::rgba(0x12, 0x34, 0x56, 0x78));
    assert_eq!(Color::rgb(1, 2, 3), Color::rgba(1, 2, 3, 255));
}

#[test]
fn color_pack_unpack_roundtrip_on_named_colors() {
    for c in [
        Color::transparent(),
        Color::white(),
        Color::black(),
        Color::brand_yellow(),
        Color::brand_blue(),
    ] {
        assert_eq!(Color::from_rgba_u32(c.to_rgba_u32()), c);
    }
    assert_eq!(Color::white().to_rgba_u32(), 0xFFFF_FFFF);
    assert_eq!(Color::black().to_rgba_u32(), 0x0000_00FF);
    assert_eq!(Color::transparent().to_rgba_u32(), 0);
    assert_eq!(Color::brand_blue().to_rgba_u32(), 0x4262_FFFF);
}

#[test]
fn different_types_are_distinct() {
    let _p = ProjectId::new();
    let _e = ElementId::new();
}

#[test]
fn v7_ids_are_time_ordered() {
    let a = ElementId::new_v7();
    let b = ElementId::new_v7();
    assert!(a.as_uuid() < b.as_uuid() || a.as_uuid() == b.as_uuid());
}

#[test]
fn roundtrip_string() {
    let id = ProjectId::new();
    let s = id.to_string();
    let parsed: ProjectId = s.parse().expect("valid uuid string");
    assert_eq!(id, parsed);
}

#[test]
fn id_text_is_hyphenated_lowercase() {
    let id = UserId(0x0123_4567_89AB_CDEF_0123_4567_89AB_CDEF);
    assert_eq!(id.to_string(), "01234567-89ab-cdef-0123-456789abcdef");
    let back = UserId::parse_str("01234567-89AB-CDEF-0123-456789ABCDEF").expect("upper case parses");
    assert_eq!(back, id);
}

#[test]
fn id_parse_rejects_garbage() {
    assert!(PeerId::parse_str("not-a-uuid").is_err());
    assert!("".parse::<AssetId>().is_err());
}

#[test]
fn fresh_ids_carry_version_bits() {
    let v4 = CommentId::new().0;
    assert_eq!((v4 >> 76) & 0xF, 4);
    assert_eq!((v4 >> 62) & 0x3, 2);
    let v7 = UserId::new_v7().0;
    assert_eq!((v7 >> 76) & 0xF, 7);
    assert_eq!((v7 >> 62) & 0x3, 2);
    let d = UserId::default().0;
    assert_eq!((d >> 76) & 0xF, 7);
}

#[test]
fn uuid_conversions_keep_the_value() {
    let u = uuid::Uuid::from_u128(42);
    let id = ElementId::from_uuid(u);
    assert_eq!(id.0, 42);
    assert_eq!(id.as_uuid(), u);
}

#[test]
fn uuid_conversions_keep_the_bits() {
    let u = uuid::Uuid::from_u128(0x0123_4567_89AB_CDEF_0123_4567_89AB_CDEF);
    let id = UserId::from_uuid(u);
    assert_eq!(id, UserId(0x0123_4567_89AB_CDEF_0123_4567_89AB_CDEF));
    assert_eq!(id.as_uuid(), u);
    assert_eq!(ProjectId(7).as_uuid().as_u128(), 7);
    assert_eq!(PeerId::from_uuid(uuid::Uuid::nil()), PeerId(0));
}
