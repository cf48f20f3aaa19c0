//! The enumerations of the graphics library, and the number each of their
//! values has on the wire.
//!
//! The numbers are those of the OpenGL ES 3.0 headers. Calling the library
//! is left to the embedding; what is fixed here is which number is sent for
//! which value.

use vstd::prelude::*;

verus! {

/// The type of the library's enumeration constants.
pub type GLenum = u32;

/// Primitive data types of the graphics library.
#[derive(Clone, Copy, Debug, PartialEq, Eq, Structural)]
pub enum GLType {
    /// An 8-bit signed byte.
    Byte,
    /// An 8-bit unsigned byte.
    UByte,
    /// A 16-bit signed short.
    Short,
    /// A 16-bit unsigned short.
    UShort,
    /// A 32-bit signed integer.
    Int,
    /// A 32-bit unsigned integer.
    UInt,
    /// A 16-bit half-float.
    HalfFloat,
    /// A 32-bit float.
    Float,
    /// A 32-bit fixed-point number.
    Fixed,
}

impl GLType {
    /// The library's constant for each value.
    pub open spec fn gl_const(self) -> GLenum {
        match self {
            GLType::Byte => 0x1400,
            GLType::UByte => 0x1401,
            GLType::Short => 0x1402,
            GLType::UShort => 0x1403,
            GLType::Int => 0x1404,
            GLType::UInt => 0x1405,
            GLType::HalfFloat => 0x140B,
            GLType::Float => 0x1406,
            GLType::Fixed => 0x140C,
        }
    }

    pub fn to_gl_const(&self) -> (constant: GLenum)
        ensures
            constant == self.gl_const(),
    {
        match self {
            GLType::Byte => 0x1400,
            GLType::UByte => 0x1401,
            GLType::Short => 0x1402,
            GLType::UShort => 0x1403,
            GLType::Int => 0x1404,
            GLType::UInt => 0x1405,
            GLType::HalfFloat => 0x140B,
            GLType::Float => 0x1406,
            GLType::Fixed => 0x140C,
        }
    }

    /// No two values share a constant.
    pub proof fn constants_differ(one: GLType, other: GLType)
        ensures
            one.gl_const() == other.gl_const() <==> one == other,
    {
    }
}

/// Buffer binding targets.
#[derive(Clone, Copy, Debug, PartialEq, Eq, Structural)]
pub enum GLBufferType {
    /// A source of vertex data.
    Array,
    /// A source for copying buffer data.
    CopyRead,
    /// A destination for copying buffer data.
    CopyWrite,
    /// A vertex index buffer.
    ElementArray,
    /// A destination of pixel transfers.
    PixelPack,
    /// A source of pixel transfers.
    PixelUnpack,
    /// A destination of transform feedback.
    TransformFeedback,
    /// Storage for uniform blocks.
    Uniform,
}

impl GLBufferType {
    /// The library's constant for each value.
    pub open spec fn gl_const(self) -> GLenum {
        match self {
            GLBufferType::Array => 0x8892,
            GLBufferType::CopyRead => 0x8F36,
            GLBufferType::CopyWrite => 0x8F37,
            GLBufferType::ElementArray => 0x8893,
            GLBufferType::PixelPack => 0x88EB,
            GLBufferType::PixelUnpack => 0x88EC,
            GLBufferType::TransformFeedback => 0x8C8E,
            GLBufferType::Uniform => 0x8A11,
        }
    }

    pub fn to_gl_const(&self) -> (constant: GLenum)
        ensures
            constant == self.gl_const(),
    {
        match self {
            GLBufferType::Array => 0x8892,
            GLBufferType::CopyRead => 0x8F36,
            GLBufferType::CopyWrite => 0x8F37,
            GLBufferType::ElementArray => 0x8893,
            GLBufferType::PixelPack => 0x88EB,
            GLBufferType::PixelUnpack => 0x88EC,
            GLBufferType::TransformFeedback => 0x8C8E,
            GLBufferType::Uniform => 0x8A11,
        }
    }

    /// No two values share a constant.
    pub proof fn constants_differ(one: GLBufferType, other: GLBufferType)
        ensures
            one.gl_const() == other.gl_const() <==> one == other,
    {
    }
}

/// How the data of a buffer will be used.
#[derive(Clone, Copy, Debug, PartialEq, Eq, Structural)]
pub enum GLBufferUsage {
    /// Changes often; written, not read.
    StreamDraw,
    /// Changes often; read, not written.
    StreamRead,
    /// Changes often; neither written nor read.
    StreamCopy,
    /// Never changes; written, not read.
    StaticDraw,
    /// Never changes; read, not written.
    StaticRead,
    /// Never changes; neither written nor read.
    StaticCopy,
    /// Changes sometimes; written, not read.
    DynamicDraw,
    /// Changes sometimes; read, not written.
    DynamicRead,
    /// Changes sometimes; neither written nor read.
    DynamicCopy,
}

impl GLBufferUsage {
    /// The library's constant for each value.
    pub open spec fn gl_const(self) -> GLenum {
        match self {
            GLBufferUsage::StreamDraw => 0x88E0,
            GLBufferUsage::StreamRead => 0x88E1,
            GLBufferUsage::StreamCopy => 0x88E2,
            GLBufferUsage::StaticDraw => 0x88E4,
            GLBufferUsage::StaticRead => 0x88E5,
            GLBufferUsage::StaticCopy => 0x88E6,
            GLBufferUsage::DynamicDraw => 0x88E8,
            GLBufferUsage::DynamicRead => 0x88E9,
            GLBufferUsage::DynamicCopy => 0x88EA,
        }
    }

    pub fn to_gl_const(&self) -> (constant: GLenum)
        ensures
            constant == self.gl_const(),
    {
        match self {
            GLBufferUsage::StreamDraw => 0x88E0,
            GLBufferUsage::StreamRead => 0x88E1,
            GLBufferUsage::StreamCopy => 0x88E2,
            GLBufferUsage::StaticDraw => 0x88E4,
            GLBufferUsage::StaticRead => 0x88E5,
            GLBufferUsage::StaticCopy => 0x88E6,
            GLBufferUsage::DynamicDraw => 0x88E8,
            GLBufferUsage::DynamicRead => 0x88E9,
            GLBufferUsage::DynamicCopy => 0x88EA,
        }
    }

    /// No two values share a constant.
    pub proof fn constants_differ(one: GLBufferUsage, other: GLBufferUsage)
        ensures
            one.gl_const() == other.gl_const() <==> one == other,
    {
    }
}

/// Shader stages.
#[derive(Clone, Copy, Debug, PartialEq, Eq, Structural)]
pub enum GLShaderType {
    /// A vertex shader.
    Vertex,
    /// A fragment shader.
    Fragment,
}

impl GLShaderType {
    /// The library's constant for each value.
    pub open spec fn gl_const(self) -> GLenum {
        match self {
            GLShaderType::Vertex => 0x8B31,
            GLShaderType::Fragment => 0x8B30,
        }
    }

    pub fn to_gl_const(&self) -> (constant: GLenum)
        ensures
            constant == self.gl_const(),
    {
        match self {
            GLShaderType::Vertex => 0x8B31,
            GLShaderType::Fragment => 0x8B30,
        }
    }

    /// No two values share a constant.
    pub proof fn constants_differ(one: GLShaderType, other: GLShaderType)
        ensures
            one.gl_const() == other.gl_const() <==> one == other,
    {
    }
}

/// How vertices are assembled into primitives.
#[derive(Clone, Copy, Debug, PartialEq, Eq, Structural)]
pub enum GLDrawMode {
    /// A point at each vertex.
    Points,
    /// A line for each two vertices.
    Lines,
    /// One line through all vertices.
    LineStrip,
    /// One closed line through all vertices.
    LineLoop,
    /// A triangle for each three vertices.
    Triangles,
    /// Triangles in a zig-zag.
    TriangleStrip,
    /// Triangles in a fan around the first vertex.
    TriangleFan,
}

impl GLDrawMode {
    /// The library's constant for each value.
    pub open spec fn gl_const(self) -> GLenum {
        match self {
            GLDrawMode::Points => 0x0000,
            GLDrawMode::Lines => 0x0001,
            GLDrawMode::LineStrip => 0x0003,
            GLDrawMode::LineLoop => 0x0002,
            GLDrawMode::Triangles => 0x0004,
            GLDrawMode::TriangleStrip => 0x0005,
            GLDrawMode::TriangleFan => 0x0006,
        }
    }

    pub fn to_gl_const(&self) -> (constant: GLenum)
        ensures
            constant == self.gl_const(),
    {
        match self {
            GLDrawMode::Points => 0x0000,
            GLDrawMode::Lines => 0x0001,
            GLDrawMode::LineStrip => 0x0003,
            GLDrawMode::LineLoop => 0x0002,
            GLDrawMode::Triangles => 0x0004,
            GLDrawMode::TriangleStrip => 0x0005,
            GLDrawMode::TriangleFan => 0x0006,
        }
    }

    /// No two values share a constant.
    pub proof fn constants_differ(one: GLDrawMode, other: GLDrawMode)
        ensures
            one.gl_const() == other.gl_const() <==> one == other,
    {
    }
}

/// Comparison functions of the depth and stencil tests.
#[derive(Clone, Copy, Debug, PartialEq, Eq, Structural)]
pub enum GLPassFunction {
    /// Never passes.
    Never,
    /// Passes if less.
    Less,
    /// Passes if equal.
    Equal,
    /// Passes if less or equal.
    Lequal,
    /// Passes if greater.
    Greater,
    /// Passes if not equal.
    Nequal,
    /// Passes if greater or equal.
    Gequal,
    /// Always passes.
    Always,
}

impl GLPassFunction {
    /// The library's constant for each value.
    pub open spec fn gl_const(self) -> GLenum {
        match self {
            GLPassFunction::Never => 0x0200,
            GLPassFunction::Less => 0x0201,
            GLPassFunction::Equal => 0x0202,
            GLPassFunction::Lequal => 0x0203,
            GLPassFunction::Greater => 0x0204,
            GLPassFunction::Nequal => 0x0205,
            GLPassFunction::Gequal => 0x0206,
            GLPassFunction::Always => 0x0207,
        }
    }

    pub fn to_gl_const(&self) -> (constant: GLenum)
        ensures
            constant == self.gl_const(),
    {
        match self {
            GLPassFunction::Never => 0x0200,
            GLPassFunction::Less => 0x0201,
            GLPassFunction::Equal => 0x0202,
            GLPassFunction::Lequal => 0x0203,
            GLPassFunction::Greater => 0x0204,
            GLPassFunction::Nequal => 0x0205,
            GLPassFunction::Gequal => 0x0206,
            GLPassFunction::Always => 0x0207,
        }
    }

    /// No two values share a constant.
    pub proof fn constants_differ(one: GLPassFunction, other: GLPassFunction)
        ensures
            one.gl_const() == other.gl_const() <==> one == other,
    {
    }
}

/// What a stencil test does to the stored value.
#[derive(Clone, Copy, Debug, PartialEq, Eq, Structural)]
pub enum GLStencilOp {
    /// Stores the reference value.
    Replace,
    /// Keeps the value.
    Keep,
    /// Stores zero.
    Zero,
    /// Adds one, stopping at the maximum.
    Incr,
    /// Adds one, wrapping to zero.
    IncrWrap,
    /// Subtracts one, stopping at zero.
    Decr,
    /// Subtracts one, wrapping to the maximum.
    DecrWrap,
    /// Inverts every bit.
    Invert,
}

impl GLStencilOp {
    /// The library's constant for each value.
    pub open spec fn gl_const(self) -> GLenum {
        match self {
            GLStencilOp::Replace => 0x1E01,
            GLStencilOp::Keep => 0x1E00,
            GLStencilOp::Zero => 0x0000,
            GLStencilOp::Incr => 0x1E02,
            GLStencilOp::IncrWrap => 0x8507,
            GLStencilOp::Decr => 0x1E03,
            GLStencilOp::DecrWrap => 0x8508,
            GLStencilOp::Invert => 0x150A,
        }
    }

    pub fn to_gl_const(&self) -> (constant: GLenum)
        ensures
            constant == self.gl_const(),
    {
        match self {
            GLStencilOp::Replace => 0x1E01,
            GLStencilOp::Keep => 0x1E00,
            GLStencilOp::Zero => 0x0000,
            GLStencilOp::Incr => 0x1E02,
            GLStencilOp::IncrWrap => 0x8507,
            GLStencilOp::Decr => 0x1E03,
            GLStencilOp::DecrWrap => 0x8508,
            GLStencilOp::Invert => 0x150A,
        }
    }

    /// No two values share a constant.
    pub proof fn constants_differ(one: GLStencilOp, other: GLStencilOp)
        ensures
            one.gl_const() == other.gl_const() <==> one == other,
    {
    }
}

/// Source factors of blending.
#[derive(Clone, Copy, Debug, PartialEq, Eq, Structural)]
pub enum GLBlendSource {
    /// The alpha of the source.
    SrcAlpha,
}

impl GLBlendSource {
    /// The library's constant for each value.
    pub open spec fn gl_const(self) -> GLenum {
        match self {
            GLBlendSource::SrcAlpha => 0x0302,
        }
    }

    pub fn to_gl_const(&self) -> (constant: GLenum)
        ensures
            constant == self.gl_const(),
    {
        match self {
            GLBlendSource::SrcAlpha => 0x0302,
        }
    }
}

/// Destination factors of blending.
#[derive(Clone, Copy, Debug, PartialEq, Eq, Structural)]
pub enum GLBlendDestination {
    /// One minus the alpha of the source.
    OneMinusSrcAlpha,
}

impl GLBlendDestination {
    /// The library's constant for each value.
    pub open spec fn gl_const(self) -> GLenum {
        match self {
            GLBlendDestination::OneMinusSrcAlpha => 0x0303,
        }
    }

    pub fn to_gl_const(&self) -> (constant: GLenum)
        ensures
            constant == self.gl_const(),
    {
        match self {
            GLBlendDestination::OneMinusSrcAlpha => 0x0303,
        }
    }
}

/// The buffers that a clear wipes.
#[derive(Clone, Copy, Debug, PartialEq, Eq, Structural)]
pub struct GLClearType {
    pub color: bool,
    pub depth: bool,
    pub stencil: bool,
}

pub const COLOR_BUFFER_BIT: u32 = 0x4000;

pub const DEPTH_BUFFER_BIT: u32 = 0x0100;

pub const STENCIL_BUFFER_BIT: u32 = 0x0400;

impl GLClearType {
    /// The library's bit mask for the chosen buffers. The three bits are
    /// apart, so their sum is their union.
    pub open spec fn mask(self) -> u32 {
        ((if self.color {
            COLOR_BUFFER_BIT
        } else {
            0
        }) + (if self.depth {
            DEPTH_BUFFER_BIT
        } else {
            0
        }) + (if self.stencil {
            STENCIL_BUFFER_BIT
        } else {
            0
        })) as u32
    }

    /// The bit mask to clear with.
    pub fn clear_mask(&self) -> (mask: u32)
        ensures
            mask == self.mask(),
    {
        let mut mask: u32 = 0;
        if self.color {
            mask = mask + COLOR_BUFFER_BIT;
        }
        if self.depth {
            mask = mask + DEPTH_BUFFER_BIT;
        }
        if self.stencil {
            mask = mask + STENCIL_BUFFER_BIT;
        }
        mask
    }
}

/// The first colour attachment point; the others follow it.
pub const COLOR_ATTACHMENT0: GLenum = 0x8CE0;

/// Attachment points of a framebuffer.
#[derive(Clone, Copy, Debug, PartialEq, Eq, Structural)]
pub enum GLAttachmentType {
    /// The colour buffer with the given number.
    Color(u8),
    /// The depth buffer.
    Depth,
    /// The stencil buffer.
    Stencil,
}

impl GLAttachmentType {
    /// The library's constant for each attachment point. The colour buffers
    /// are numbered upwards from `COLOR_ATTACHMENT0`.
    pub open spec fn gl_const(self) -> GLenum {
        match self {
            GLAttachmentType::Color(number) => (COLOR_ATTACHMENT0 + number) as GLenum,
            GLAttachmentType::Depth => 0x8D00,
            GLAttachmentType::Stencil => 0x8D20,
        }
    }

    /// Whether the attachment point is a colour buffer: only into those can
    /// be drawn.
    pub fn is_color(&self) -> (color: bool)
        ensures
            color == (*self is Color),
    {
        match self {
            GLAttachmentType::Color(_) => true,
            _ => false,
        }
    }

    pub fn to_gl_const(&self) -> (constant: GLenum)
        ensures
            constant == self.gl_const(),
            *self matches GLAttachmentType::Color(number) ==> constant == COLOR_ATTACHMENT0
                + number,
    {
        match self {
            GLAttachmentType::Color(number) => COLOR_ATTACHMENT0 + *number as GLenum,
            GLAttachmentType::Depth => 0x8D00,
            GLAttachmentType::Stencil => 0x8D20,
        }
    }

    /// The attachment point is the depth buffer, the stencil buffer, or one
    /// of the first 32 colour buffers.
    pub open spec fn is_plain(self) -> bool {
        self matches GLAttachmentType::Color(number) ==> number < 32
    }

    /// No two plain attachment points share a constant. Beyond them the
    /// numbering runs into the other buffers: the colour buffer 32 has the
    /// constant of the depth buffer, and the colour buffer 64 that of the
    /// stencil buffer.
    pub proof fn constants_differ(one: GLAttachmentType, other: GLAttachmentType)
        requires
            one.is_plain(),
            other.is_plain(),
        ensures
            one.gl_const() == other.gl_const() <==> one == other,
            GLAttachmentType::Color(32).gl_const() == GLAttachmentType::Depth.gl_const(),
            GLAttachmentType::Color(64).gl_const() == GLAttachmentType::Stencil.gl_const(),
    {
    }
}

} // verus!
