use handterm::surface::{
    build_surface_config, select_alpha_mode, select_present_mode, select_surface_format,
    surface_supports_defaults, AlphaMode, PresentMode, SurfaceCaps, SurfaceDefaults, SurfaceError,
    TextureFormat,
};

const BGRA8_UNORM: TextureFormat = TextureFormat { code: 1, is_srgb: false };
const BGRA8_UNORM_SRGB: TextureFormat = TextureFormat { code: 2, is_srgb: true };
const RGBA16_FLOAT: TextureFormat = TextureFormat { code: 3, is_srgb: false };

fn caps(
    formats: Vec<TextureFormat>,
    present_modes: Vec<PresentMode>,
    alpha_modes: Vec<AlphaMode>,
) -> SurfaceCaps {
    SurfaceCaps { formats, present_modes, alpha_modes }
}

#[test]
fn prefers_non_srgb_surface_format_when_available() {
    let capabilities = caps(
        vec![BGRA8_UNORM_SRGB, BGRA8_UNORM],
        vec![PresentMode::Fifo],
        vec![AlphaMode::Opaque],
    );
    assert_eq!(select_surface_format(&capabilities, BGRA8_UNORM_SRGB), BGRA8_UNORM);
}

#[test]
fn surface_format_falls_back_when_every_format_is_srgb() {
    let capabilities = caps(vec![BGRA8_UNORM_SRGB], vec![], vec![]);
    assert_eq!(select_surface_format(&capabilities, RGBA16_FLOAT), RGBA16_FLOAT);
    let empty = caps(vec![], vec![], vec![]);
    assert_eq!(select_surface_format(&empty, BGRA8_UNORM_SRGB), BGRA8_UNORM_SRGB);
}

#[test]
fn prefers_premultiplied_alpha_when_transparency_is_requested() {
    let capabilities = caps(
        vec![BGRA8_UNORM],
        vec![PresentMode::Fifo],
        vec![AlphaMode::Opaque, AlphaMode::PreMultiplied],
    );
    assert_eq!(select_alpha_mode(&capabilities, true), AlphaMode::PreMultiplied);
    assert_eq!(select_alpha_mode(&capabilities, false), AlphaMode::Opaque);
}

#[test]
fn falls_back_to_auto_alpha_when_thats_all_the_compositor_offers() {
    let capabilities = caps(vec![BGRA8_UNORM], vec![PresentMode::Fifo], vec![AlphaMode::Auto]);
    assert_eq!(select_alpha_mode(&capabilities, true), AlphaMode::Auto);
}

#[test]
fn falls_back_to_opaque_alpha_when_compositor_has_no_transparent_mode() {
    let capabilities = caps(vec![BGRA8_UNORM], vec![PresentMode::Fifo], vec![AlphaMode::Opaque]);
    assert_eq!(select_alpha_mode(&capabilities, true), AlphaMode::Opaque);
}

#[test]
fn alpha_preference_order_is_pre_post_inherit_auto() {
    let all = caps(
        vec![],
        vec![],
        vec![AlphaMode::Auto, AlphaMode::Inherit, AlphaMode::PostMultiplied, AlphaMode::PreMultiplied],
    );
    assert_eq!(select_alpha_mode(&all, true), AlphaMode::PreMultiplied);
    let no_pre = caps(vec![], vec![], vec![AlphaMode::Auto, AlphaMode::Inherit, AlphaMode::PostMultiplied]);
    assert_eq!(select_alpha_mode(&no_pre, true), AlphaMode::PostMultiplied);
    let inherit = caps(vec![], vec![], vec![AlphaMode::Auto, AlphaMode::Inherit]);
    assert_eq!(select_alpha_mode(&inherit, true), AlphaMode::Inherit);
}

#[test]
fn present_mode_prefers_mailbox_then_fifo_then_auto_vsync() {
    let all = caps(
        vec![],
        vec![PresentMode::Immediate, PresentMode::AutoVsync, PresentMode::Fifo, PresentMode::Mailbox],
        vec![],
    );
    assert_eq!(select_present_mode(&all), PresentMode::Mailbox);
    let fifo = caps(vec![], vec![PresentMode::AutoVsync, PresentMode::Fifo], vec![]);
    assert_eq!(select_present_mode(&fifo), PresentMode::Fifo);
    let auto = caps(vec![], vec![PresentMode::Immediate, PresentMode::AutoVsync], vec![]);
    assert_eq!(select_present_mode(&auto), PresentMode::AutoVsync);
    let other = caps(vec![], vec![PresentMode::Immediate, PresentMode::FifoRelaxed], vec![]);
    assert_eq!(select_present_mode(&other), PresentMode::Immediate);
    let none = caps(vec![], vec![], vec![]);
    assert_eq!(select_present_mode(&none), PresentMode::Fifo);
}

#[test]
fn build_surface_config_reuses_supported_preferred_defaults() {
    let defaults = SurfaceDefaults {
        format: BGRA8_UNORM,
        present_mode: PresentMode::Mailbox,
        alpha_mode: AlphaMode::PreMultiplied,
    };
    let capabilities = caps(
        vec![defaults.format],
        vec![defaults.present_mode],
        vec![defaults.alpha_mode],
    );
    assert!(surface_supports_defaults(&capabilities, defaults));
    let (config, reused) = build_surface_config(800, 600, true, Some(defaults), Some(&capabilities))
        .expect("preferred defaults should build a surface config");

    assert!(reused);
    assert_eq!(config.width, 800);
    assert_eq!(config.height, 600);
    assert_eq!(config.format, defaults.format);
    assert_eq!(config.present_mode, defaults.present_mode);
    assert_eq!(config.alpha_mode, defaults.alpha_mode);
    assert_eq!(config.max_frame_latency, 1);
}

#[test]
fn build_surface_config_rejects_defaults_unsupported_by_new_surface() {
    let defaults = SurfaceDefaults {
        format: RGBA16_FLOAT,
        present_mode: PresentMode::Mailbox,
        alpha_mode: AlphaMode::PreMultiplied,
    };
    let capabilities = caps(vec![BGRA8_UNORM], vec![PresentMode::Fifo], vec![AlphaMode::Opaque]);
    assert!(!surface_supports_defaults(&capabilities, defaults));

    let (config, reused) = build_surface_config(800, 600, false, Some(defaults), Some(&capabilities))
        .expect("unsupported defaults should fall back to capabilities");

    assert!(!reused);
    assert_eq!(config.format, BGRA8_UNORM);
    assert_eq!(config.present_mode, PresentMode::Fifo);
    assert_eq!(config.alpha_mode, AlphaMode::Opaque);
}

#[test]
fn build_surface_config_uses_capabilities_when_defaults_absent() {
    let capabilities = caps(
        vec![BGRA8_UNORM_SRGB, BGRA8_UNORM],
        vec![PresentMode::Fifo, PresentMode::AutoVsync],
        vec![AlphaMode::Opaque, AlphaMode::PostMultiplied],
    );

    let (config, reused) = build_surface_config(640, 480, true, None, Some(&capabilities))
        .expect("capabilities should build a surface config");

    assert!(!reused);
    assert_eq!(config.width, 640);
    assert_eq!(config.height, 480);
    assert_eq!(config.format, BGRA8_UNORM);
    assert_eq!(config.present_mode, PresentMode::Fifo);
    assert_eq!(config.alpha_mode, AlphaMode::PostMultiplied);
}

#[test]
fn build_surface_config_clamps_zero_size_to_one_pixel() {
    let capabilities = caps(vec![BGRA8_UNORM_SRGB], vec![], vec![]);
    let (config, reused) = build_surface_config(0, 0, false, None, Some(&capabilities)).unwrap();
    assert!(!reused);
    assert_eq!((config.width, config.height), (1, 1));
    assert_eq!(config.format, BGRA8_UNORM_SRGB);
    assert_eq!(config.present_mode, PresentMode::Fifo);
    assert_eq!(config.alpha_mode, AlphaMode::Opaque);
}

#[test]
fn build_surface_config_is_incompatible_without_usable_capabilities() {
    let defaults = SurfaceDefaults {
        format: BGRA8_UNORM,
        present_mode: PresentMode::Fifo,
        alpha_mode: AlphaMode::Opaque,
    };
    assert_eq!(
        build_surface_config(10, 10, false, Some(defaults), None),
        Err(SurfaceError::Incompatible)
    );
    let no_formats = caps(vec![], vec![PresentMode::Fifo], vec![AlphaMode::Opaque]);
    assert_eq!(
        build_surface_config(10, 10, false, Some(defaults), Some(&no_formats)),
        Err(SurfaceError::Incompatible)
    );
}
