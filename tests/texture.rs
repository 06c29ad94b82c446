use glacier_geometry::texture::{
    Dimensions, InterpretAs, MipFilter, MipLevels, RenderFormat, TextureFlags, TextureMapParams,
    TextureType,
};

#[test]
fn render_format_properties() {
    assert!(RenderFormat::BC1.is_compressed());
    assert!(RenderFormat::BC7.is_compressed());
    assert!(!RenderFormat::R8G8B8A8.is_compressed());
    assert_eq!(RenderFormat::A8.num_channels(), 1);
    assert_eq!(RenderFormat::BC5.num_channels(), 2);
    assert_eq!(RenderFormat::BC1.num_channels(), 4);
    assert_eq!(RenderFormat::from_u16(0x5A), Some(RenderFormat::BC7));
    assert_eq!(RenderFormat::from_u16(0x5B), None);
    assert_eq!(RenderFormat::R8G8.to_u16(), 0x34);
}

#[test]
fn texture_flags_bits() {
    let mut f = TextureFlags::default();
    f.set_deferred(true);
    assert_eq!(f.inner, 0x2);
    assert!(f.deferred());
    f.set_atlas(true);
    f.set_unknown3(true);
    assert_eq!(f.inner, 0x52);
    f.set_deferred(false);
    assert_eq!(f.inner, 0x50);
    assert!(f.with_unknown1(true).unknown1());
    assert_eq!(f.with_swizzled(true).inner, 0x51);
    assert_eq!(f.with_ddsc_encoded(true).inner, 0x70);
    assert!(f.with_memory_read_xbox_360(true).memory_read_xbox_360());
    assert!(!f.swizzled());
}

#[test]
fn texture_params_defaults() {
    let p = TextureMapParams::new(RenderFormat::BC3);
    assert_eq!(p.texture_type, TextureType::Colour);
    assert_eq!(p.interpret_as, InterpretAs::Normal);
    assert_eq!(p.dimensions, Dimensions::_2D);
    assert!(p.flags.unknown3());
    assert_eq!(p.num_mip_levels, MipLevels::All);
    assert_eq!(p.mip_filter, MipFilter::Box);
    assert_eq!(p.texd_identifier, 0x4000);
    assert_eq!(TextureType::from_u16(256), Some(TextureType::Cubemap));
    assert_eq!(TextureType::Emission.to_u16(), 16);
    assert_eq!(InterpretAs::Volume.to_u8(), 64);
}
