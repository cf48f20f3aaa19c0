use touch_shell::gl::{
    GLAttachmentType, GLBlendDestination, GLBlendSource, GLBufferType, GLBufferUsage,
    GLClearType, GLDrawMode, GLPassFunction, GLShaderType, GLStencilOp, GLType,
};
use touch_shell::input_manager::{KeyCommand, SfKeyboardHandler};

#[test]
fn data_type_constants() {
    assert_eq!(GLType::Byte.to_gl_const(), 0x1400);
    assert_eq!(GLType::UByte.to_gl_const(), 0x1401);
    assert_eq!(GLType::Short.to_gl_const(), 0x1402);
    assert_eq!(GLType::UShort.to_gl_const(), 0x1403);
    assert_eq!(GLType::Int.to_gl_const(), 0x1404);
    assert_eq!(GLType::UInt.to_gl_const(), 0x1405);
    assert_eq!(GLType::Float.to_gl_const(), 0x1406);
    assert_eq!(GLType::HalfFloat.to_gl_const(), 0x140B);
    assert_eq!(GLType::Fixed.to_gl_const(), 0x140C);
}

#[test]
fn buffer_constants() {
    assert_eq!(GLBufferType::Array.to_gl_const(), 0x8892);
    assert_eq!(GLBufferType::ElementArray.to_gl_const(), 0x8893);
    assert_eq!(GLBufferType::CopyRead.to_gl_const(), 0x8F36);
    assert_eq!(GLBufferType::CopyWrite.to_gl_const(), 0x8F37);
    assert_eq!(GLBufferType::PixelPack.to_gl_const(), 0x88EB);
    assert_eq!(GLBufferType::PixelUnpack.to_gl_const(), 0x88EC);
    assert_eq!(GLBufferType::TransformFeedback.to_gl_const(), 0x8C8E);
    assert_eq!(GLBufferType::Uniform.to_gl_const(), 0x8A11);
    assert_eq!(GLBufferUsage::StreamDraw.to_gl_const(), 0x88E0);
    assert_eq!(GLBufferUsage::StreamRead.to_gl_const(), 0x88E1);
    assert_eq!(GLBufferUsage::StreamCopy.to_gl_const(), 0x88E2);
    assert_eq!(GLBufferUsage::StaticDraw.to_gl_const(), 0x88E4);
    assert_eq!(GLBufferUsage::StaticRead.to_gl_const(), 0x88E5);
    assert_eq!(GLBufferUsage::StaticCopy.to_gl_const(), 0x88E6);
    assert_eq!(GLBufferUsage::DynamicDraw.to_gl_const(), 0x88E8);
    assert_eq!(GLBufferUsage::DynamicRead.to_gl_const(), 0x88E9);
    assert_eq!(GLBufferUsage::DynamicCopy.to_gl_const(), 0x88EA);
}

#[test]
fn shader_and_draw_constants() {
    assert_eq!(GLShaderType::Vertex.to_gl_const(), 0x8B31);
    assert_eq!(GLShaderType::Fragment.to_gl_const(), 0x8B30);
    assert_eq!(GLDrawMode::Points.to_gl_const(), 0);
    assert_eq!(GLDrawMode::Lines.to_gl_const(), 1);
    assert_eq!(GLDrawMode::LineLoop.to_gl_const(), 2);
    assert_eq!(GLDrawMode::LineStrip.to_gl_const(), 3);
    assert_eq!(GLDrawMode::Triangles.to_gl_const(), 4);
    assert_eq!(GLDrawMode::TriangleStrip.to_gl_const(), 5);
    assert_eq!(GLDrawMode::TriangleFan.to_gl_const(), 6);
}

#[test]
fn test_function_constants() {
    assert_eq!(GLPassFunction::Never.to_gl_const(), 0x0200);
    assert_eq!(GLPassFunction::Less.to_gl_const(), 0x0201);
    assert_eq!(GLPassFunction::Equal.to_gl_const(), 0x0202);
    assert_eq!(GLPassFunction::Lequal.to_gl_const(), 0x0203);
    assert_eq!(GLPassFunction::Greater.to_gl_const(), 0x0204);
    assert_eq!(GLPassFunction::Nequal.to_gl_const(), 0x0205);
    assert_eq!(GLPassFunction::Gequal.to_gl_const(), 0x0206);
    assert_eq!(GLPassFunction::Always.to_gl_const(), 0x0207);
    assert_eq!(GLStencilOp::Keep.to_gl_const(), 0x1E00);
    assert_eq!(GLStencilOp::Replace.to_gl_const(), 0x1E01);
    assert_eq!(GLStencilOp::Incr.to_gl_const(), 0x1E02);
    assert_eq!(GLStencilOp::Decr.to_gl_const(), 0x1E03);
    assert_eq!(GLStencilOp::Zero.to_gl_const(), 0);
    assert_eq!(GLStencilOp::Invert.to_gl_const(), 0x150A);
    assert_eq!(GLStencilOp::IncrWrap.to_gl_const(), 0x8507);
    assert_eq!(GLStencilOp::DecrWrap.to_gl_const(), 0x8508);
    assert_eq!(GLBlendSource::SrcAlpha.to_gl_const(), 0x0302);
    assert_eq!(GLBlendDestination::OneMinusSrcAlpha.to_gl_const(), 0x0303);
}

#[test]
fn attachment_constants() {
    assert_eq!(GLAttachmentType::Color(0).to_gl_const(), 0x8CE0);
    assert_eq!(GLAttachmentType::Color(15).to_gl_const(), 0x8CEF);
    assert_eq!(GLAttachmentType::Color(255).to_gl_const(), 0x8DDF);
    assert_eq!(GLAttachmentType::Depth.to_gl_const(), 0x8D00);
    assert_eq!(GLAttachmentType::Stencil.to_gl_const(), 0x8D20);
    assert!(GLAttachmentType::Color(3).is_color());
    assert!(!GLAttachmentType::Depth.is_color());
    assert!(!GLAttachmentType::Stencil.is_color());
}

#[test]
fn colour_buffers_beyond_the_first_32_run_into_depth_and_stencil() {
    assert_eq!(
        GLAttachmentType::Color(32).to_gl_const(),
        GLAttachmentType::Depth.to_gl_const()
    );
    assert_eq!(
        GLAttachmentType::Color(64).to_gl_const(),
        GLAttachmentType::Stencil.to_gl_const()
    );
}

#[test]
fn clear_mask_joins_the_bits() {
    let mask = |color, depth, stencil| GLClearType { color, depth, stencil }.clear_mask();
    assert_eq!(mask(false, false, false), 0);
    assert_eq!(mask(true, false, false), 0x4000);
    assert_eq!(mask(false, true, false), 0x0100);
    assert_eq!(mask(false, false, true), 0x0400);
    assert_eq!(mask(true, true, false), 0x4100);
    assert_eq!(mask(true, true, true), 0x4500);
}

#[test]
fn chords_of_the_keyboard_handler() {
    let mut handler = SfKeyboardHandler::new();
    assert_eq!(handler.on_key(59), KeyCommand { terminal: None, quit: false });
    handler.modifiers(true, true, false);
    assert_eq!(handler, SfKeyboardHandler { ctrl_alt_pressed: true, ctrl_shift_opt_pressed: false });
    assert_eq!(handler.on_key(58), KeyCommand { terminal: None, quit: false });
    assert_eq!(handler.on_key(59), KeyCommand { terminal: Some(1), quit: false });
    assert_eq!(handler.on_key(65), KeyCommand { terminal: Some(7), quit: false });
    assert_eq!(handler.on_key(66), KeyCommand { terminal: None, quit: false });
    assert_eq!(handler.on_key(1), KeyCommand { terminal: None, quit: false });
    handler.modifiers(true, true, true);
    assert_eq!(handler.on_key(1), KeyCommand { terminal: None, quit: true });
    assert_eq!(handler.on_key(60), KeyCommand { terminal: Some(2), quit: false });
    assert_eq!(handler.on_key(u32::MAX), KeyCommand { terminal: None, quit: false });
    handler.modifiers(false, true, true);
    assert_eq!(handler, SfKeyboardHandler::new());
    handler.modifiers(true, false, true);
    assert_eq!(handler.on_key(1), KeyCommand { terminal: None, quit: false });
}
