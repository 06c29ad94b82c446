//! Enumerations and flags of the texture resources that accompany meshes.
use vstd::prelude::*;

verus! {

/// Game generation a resource belongs to.
#[derive(Debug, Clone, Copy, PartialEq, Eq)]
pub enum WoaVersion {
    HM2016,
    HM2,
    HM3,
}

/// Something tied to one game generation.
pub trait Version {
    fn get_version() -> WoaVersion;
}

/// Semantic kind of a texture.
#[derive(Debug, Clone, Copy, PartialEq, Eq)]
pub enum TextureType {
    Colour,
    Normal,
    Height,
    CompoundNormal,
    Billboard,
    Projection,
    Emission,
    Cubemap,
    UNKNOWN512,
}

/// The stored value of a texture kind.
pub open spec fn texture_type_value(t: TextureType) -> u16 {
    match t {
        TextureType::Colour => 0,
        TextureType::Normal => 1,
        TextureType::Height => 2,
        TextureType::CompoundNormal => 3,
        TextureType::Billboard => 4,
        TextureType::Projection => 6,
        TextureType::Emission => 16,
        TextureType::Cubemap => 256,
        TextureType::UNKNOWN512 => 512,
    }
}

impl TextureType {
    /// The stored value of this kind.
    pub fn to_u16(&self) -> (r: u16)
        ensures
            r == texture_type_value(*self),
    {
        match self {
            TextureType::Colour => 0,
            TextureType::Normal => 1,
            TextureType::Height => 2,
            TextureType::CompoundNormal => 3,
            TextureType::Billboard => 4,
            TextureType::Projection => 6,
            TextureType::Emission => 16,
            TextureType::Cubemap => 256,
            TextureType::UNKNOWN512 => 512,
        }
    }

    /// The kind whose stored value is `v`, if any.
    pub fn from_u16(v: u16) -> (r: Option<TextureType>)
        ensures
            r matches Some(t) ==> texture_type_value(t) == v,
            r is None <==> !(v == 0 || v == 1 || v == 2 || v == 3 || v == 4 || v == 6 || v == 16
                || v == 256 || v == 512),
    {
        match v {
            0 => Some(TextureType::Colour),
            1 => Some(TextureType::Normal),
            2 => Some(TextureType::Height),
            3 => Some(TextureType::CompoundNormal),
            4 => Some(TextureType::Billboard),
            6 => Some(TextureType::Projection),
            16 => Some(TextureType::Emission),
            256 => Some(TextureType::Cubemap),
            512 => Some(TextureType::UNKNOWN512),
            _ => None,
        }
    }
}

/// How a texture's channels are interpreted.
#[derive(Debug, Clone, Copy, PartialEq, Eq)]
pub enum InterpretAs {
    Colour,
    Normal,
    Height,
    CompoundNormal,
    Billboard,
    Cubemap,
    Emission,
    Volume,
}

/// The stored value of an interpretation.
pub open spec fn interpret_as_value(t: InterpretAs) -> u8 {
    match t {
        InterpretAs::Colour => 0,
        InterpretAs::Normal => 1,
        InterpretAs::Height => 2,
        InterpretAs::CompoundNormal => 3,
        InterpretAs::Billboard => 4,
        InterpretAs::Cubemap => 6,
        InterpretAs::Emission => 16,
        InterpretAs::Volume => 64,
    }
}

impl InterpretAs {
    /// The stored value of this interpretation.
    pub fn to_u8(&self) -> (r: u8)
        ensures
            r == interpret_as_value(*self),
    {
        match self {
            InterpretAs::Colour => 0,
            InterpretAs::Normal => 1,
            InterpretAs::Height => 2,
            InterpretAs::CompoundNormal => 3,
            InterpretAs::Billboard => 4,
            InterpretAs::Cubemap => 6,
            InterpretAs::Emission => 16,
            InterpretAs::Volume => 64,
        }
    }
}

/// Pixel format of a texture.
#[derive(Debug, Clone, Copy, PartialEq, Eq, Hash)]
pub enum RenderFormat {
    R16G16B16A16,
    R8G8B8A8,
    R8G8,
    A8,
    BC1,
    BC2,
    BC3,
    BC4,
    BC5,
    BC7,
}

/// Whether a format is block compressed.
pub open spec fn format_is_compressed(f: RenderFormat) -> bool {
    match f {
        RenderFormat::BC1 | RenderFormat::BC2 | RenderFormat::BC3 | RenderFormat::BC4
        | RenderFormat::BC5 | RenderFormat::BC7 => true,
        _ => false,
    }
}

/// Number of channels a format carries (BC1 is taken to have alpha).
pub open spec fn format_channels(f: RenderFormat) -> usize {
    match f {
        RenderFormat::A8 | RenderFormat::BC4 => 1,
        RenderFormat::R8G8 | RenderFormat::BC5 => 2,
        _ => 4,
    }
}

/// The stored value of a format.
pub open spec fn format_value(f: RenderFormat) -> u16 {
    match f {
        RenderFormat::R16G16B16A16 => 0x0A,
        RenderFormat::R8G8B8A8 => 0x1C,
        RenderFormat::R8G8 => 0x34,
        RenderFormat::A8 => 0x42,
        RenderFormat::BC1 => 0x49,
        RenderFormat::BC2 => 0x4C,
        RenderFormat::BC3 => 0x4F,
        RenderFormat::BC4 => 0x52,
        RenderFormat::BC5 => 0x55,
        RenderFormat::BC7 => 0x5A,
    }
}

impl RenderFormat {
    /// Whether the format is block compressed.
    pub fn is_compressed(&self) -> (r: bool)
        ensures
            r == format_is_compressed(*self),
    {
        match self {
            RenderFormat::BC1 | RenderFormat::BC2 | RenderFormat::BC3 | RenderFormat::BC4
            | RenderFormat::BC5 | RenderFormat::BC7 => true,
            _ => false,
        }
    }

    /// Number of channels the format carries.
    pub fn num_channels(&self) -> (r: usize)
        ensures
            r == format_channels(*self),
    {
        match self {
            RenderFormat::A8 | RenderFormat::BC4 => 1,
            RenderFormat::R8G8 | RenderFormat::BC5 => 2,
            _ => 4,
        }
    }

    /// The stored value of the format.
    pub fn to_u16(&self) -> (r: u16)
        ensures
            r == format_value(*self),
    {
        match self {
            RenderFormat::R16G16B16A16 => 0x0A,
            RenderFormat::R8G8B8A8 => 0x1C,
            RenderFormat::R8G8 => 0x34,
            RenderFormat::A8 => 0x42,
            RenderFormat::BC1 => 0x49,
            RenderFormat::BC2 => 0x4C,
            RenderFormat::BC3 => 0x4F,
            RenderFormat::BC4 => 0x52,
            RenderFormat::BC5 => 0x55,
            RenderFormat::BC7 => 0x5A,
        }
    }

    /// The format whose stored value is `v`, if any.
    pub fn from_u16(v: u16) -> (r: Option<RenderFormat>)
        ensures
            r matches Some(f) ==> format_value(f) == v,
            r is None ==> forall|f: RenderFormat| format_value(f) != v,
    {
        match v {
            0x0A => Some(RenderFormat::R16G16B16A16),
            0x1C => Some(RenderFormat::R8G8B8A8),
            0x34 => Some(RenderFormat::R8G8),
            0x42 => Some(RenderFormat::A8),
            0x49 => Some(RenderFormat::BC1),
            0x4C => Some(RenderFormat::BC2),
            0x4F => Some(RenderFormat::BC3),
            0x52 => Some(RenderFormat::BC4),
            0x55 => Some(RenderFormat::BC5),
            0x5A => Some(RenderFormat::BC7),
            _ => None,
        }
    }
}

/// Shape of a texture.
#[derive(Debug, Clone, Copy, PartialEq, Eq)]
pub enum Dimensions {
    _2D,
    Cube,
    Volume,
}

/// How many mip levels to generate.
#[derive(Debug, Clone, Copy, PartialEq, Eq)]
pub enum MipLevels {
    All,
    Limit(u8),
}

/// Filter used to generate mip levels.
#[derive(Debug, Clone, Copy, PartialEq, Eq)]
pub enum MipFilter {
    Nearest,
    Linear,
    Cubic,
    Box,
}

/// Bit `n` of a flag word.
pub open spec fn flag_bit(bits: u32, n: u32) -> bool {
    (bits >> n) & 1 == 1
}

/// A flag word with bit `n` set to `value` and the others kept.
pub open spec fn with_bit(bits: u32, n: u32, value: bool) -> u32 {
    if value {
        bits | (1u32 << n)
    } else {
        bits & !(1u32 << n)
    }
}

/// Texture flags: bit 0 swizzled, 1 deferred, 2 memory read on Xbox 360,
/// 3 unknown1, 4 atlas, 5 DDSC encoded, 6 unknown3.
#[derive(Debug, Clone, Copy, PartialEq, Eq, Default)]
pub struct TextureFlags {
    pub inner: u32,
}

fn set_bit(bits: u32, n: u32, value: bool) -> (r: u32)
    requires
        n < 32,
    ensures
        r == with_bit(bits, n, value),
        flag_bit(r, n) == value,
        forall|m: u32| m < 32 && m != n ==> flag_bit(r, m) == flag_bit(bits, m),
{
    let r = if value {
        bits | (1u32 << n)
    } else {
        bits & !(1u32 << n)
    };
    assert(flag_bit(r, n) == value) by (bit_vector)
        requires
            n < 32,
            r == if value { bits | (1u32 << n) } else { bits & !(1u32 << n) },
    ;
    assert forall|m: u32| m < 32 && m != n implies flag_bit(r, m) == flag_bit(bits, m) by {
        assert(((r >> m) & 1 == 1) == ((bits >> m) & 1 == 1)) by (bit_vector)
            requires
                n < 32,
                m < 32,
                m != n,
                r == if value { bits | (1u32 << n) } else { bits & !(1u32 << n) },
        ;
    }
    r
}

impl TextureFlags {
    pub fn deferred(&self) -> (r: bool)
        ensures
            r == flag_bit(self.inner, 1),
    {
        (self.inner >> 1u32) & 1 == 1
    }

    pub fn unknown1(&self) -> (r: bool)
        ensures
            r == flag_bit(self.inner, 3),
    {
        (self.inner >> 3u32) & 1 == 1
    }

    pub fn atlas(&self) -> (r: bool)
        ensures
            r == flag_bit(self.inner, 4),
    {
        (self.inner >> 4u32) & 1 == 1
    }

    pub fn unknown3(&self) -> (r: bool)
        ensures
            r == flag_bit(self.inner, 6),
    {
        (self.inner >> 6u32) & 1 == 1
    }

    pub fn swizzled(&self) -> (r: bool)
        ensures
            r == flag_bit(self.inner, 0),
    {
        (self.inner >> 0u32) & 1 == 1
    }

    pub fn memory_read_xbox_360(&self) -> (r: bool)
        ensures
            r == flag_bit(self.inner, 2),
    {
        (self.inner >> 2u32) & 1 == 1
    }

    pub fn ddsc_encoded(&self) -> (r: bool)
        ensures
            r == flag_bit(self.inner, 5),
    {
        (self.inner >> 5u32) & 1 == 1
    }

    pub fn set_deferred(&mut self, value: bool)
        ensures
            final(self).inner == with_bit(old(self).inner, 1, value),
    {
        self.inner = set_bit(self.inner, 1, value);
    }

    pub fn set_unknown1(&mut self, value: bool)
        ensures
            final(self).inner == with_bit(old(self).inner, 3, value),
    {
        self.inner = set_bit(self.inner, 3, value);
    }

    pub fn set_unknown3(&mut self, value: bool)
        ensures
            final(self).inner == with_bit(old(self).inner, 6, value),
    {
        self.inner = set_bit(self.inner, 6, value);
    }

    pub fn set_atlas(&mut self, value: bool)
        ensures
            final(self).inner == with_bit(old(self).inner, 4, value),
    {
        self.inner = set_bit(self.inner, 4, value);
    }

    pub fn set_swizzled(&mut self, value: bool)
        ensures
            final(self).inner == with_bit(old(self).inner, 0, value),
    {
        self.inner = set_bit(self.inner, 0, value);
    }

    pub fn set_memory_read_xbox_360(&mut self, value: bool)
        ensures
            final(self).inner == with_bit(old(self).inner, 2, value),
    {
        self.inner = set_bit(self.inner, 2, value);
    }

    pub fn set_ddsc_encoded(&mut self, value: bool)
        ensures
            final(self).inner == with_bit(old(self).inner, 5, value),
    {
        self.inner = set_bit(self.inner, 5, value);
    }

    pub fn with_deferred(&self, value: bool) -> (r: TextureFlags)
        ensures
            r.inner == with_bit(self.inner, 1, value),
    {
        TextureFlags { inner: set_bit(self.inner, 1, value) }
    }

    pub fn with_unknown1(&self, value: bool) -> (r: TextureFlags)
        ensures
            r.inner == with_bit(self.inner, 3, value),
    {
        TextureFlags { inner: set_bit(self.inner, 3, value) }
    }

    pub fn with_atlas(&self, value: bool) -> (r: TextureFlags)
        ensures
            r.inner == with_bit(self.inner, 4, value),
    {
        TextureFlags { inner: set_bit(self.inner, 4, value) }
    }

    pub fn with_unknown3(&self, value: bool) -> (r: TextureFlags)
        ensures
            r.inner == with_bit(self.inner, 6, value),
    {
        TextureFlags { inner: set_bit(self.inner, 6, value) }
    }

    pub fn with_swizzled(&self, value: bool) -> (r: TextureFlags)
        ensures
            r.inner == with_bit(self.inner, 0, value),
    {
        TextureFlags { inner: set_bit(self.inner, 0, value) }
    }

    pub fn with_memory_read_xbox_360(&self, value: bool) -> (r: TextureFlags)
        ensures
            r.inner == with_bit(self.inner, 2, value),
    {
        TextureFlags { inner: set_bit(self.inner, 2, value) }
    }

    pub fn with_ddsc_encoded(&self, value: bool) -> (r: TextureFlags)
        ensures
            r.inner == with_bit(self.inner, 5, value),
    {
        TextureFlags { inner: set_bit(self.inner, 5, value) }
    }
}

/// Settings for building a texture.
#[derive(Debug, Clone, Copy, PartialEq, Eq)]
pub struct TextureMapParams {
    pub texture_type: TextureType,
    pub interpret_as: InterpretAs,
    pub dimensions: Dimensions,
    pub flags: TextureFlags,
    pub format: RenderFormat,
    pub num_mip_levels: MipLevels,
    pub default_mip_level: u8,
    pub texd_identifier: u32,
    pub mip_filter: MipFilter,
}

impl TextureMapParams {
    /// Default settings for `format`: a colour texture read as normal map, 2D,
    /// only the unknown3 flag set, all mip levels, box filtering.
    pub fn new(format: RenderFormat) -> (r: TextureMapParams)
        ensures
            r == (TextureMapParams {
                texture_type: TextureType::Colour,
                interpret_as: InterpretAs::Normal,
                dimensions: Dimensions::_2D,
                flags: TextureFlags { inner: 0x40 },
                format,
                num_mip_levels: MipLevels::All,
                default_mip_level: 0,
                texd_identifier: 0x4000,
                mip_filter: MipFilter::Box,
            }),
    {
        TextureMapParams {
            texture_type: TextureType::Colour,
            interpret_as: InterpretAs::Normal,
            dimensions: Dimensions::_2D,
            flags: TextureFlags { inner: 0x40 },
            format,
            num_mip_levels: MipLevels::All,
            default_mip_level: 0,
            texd_identifier: 0x4000,
            mip_filter: MipFilter::Box,
        }
    }
}

} // verus!
