//! Choosing how a GPU surface is configured from what the surface supports:
//! texture format, presentation mode and alpha compositing mode, reusing the
//! choices of an earlier surface when the new one supports them.

use vstd::prelude::*;

verus! {

/// How frames are handed to the display.
#[derive(Debug, Clone, Copy, PartialEq, Eq, Structural)]
pub enum PresentMode {
    AutoVsync,
    AutoNoVsync,
    Fifo,
    FifoRelaxed,
    Immediate,
    Mailbox,
}

/// How the compositor treats the surface's alpha channel.
#[derive(Debug, Clone, Copy, PartialEq, Eq, Structural)]
pub enum AlphaMode {
    Auto,
    Opaque,
    PreMultiplied,
    PostMultiplied,
    Inherit,
}

/// A texture format, by an identifying code, and whether it stores colour
/// in the sRGB encoding.
#[derive(Debug, Clone, Copy, PartialEq, Eq, Structural)]
pub struct TextureFormat {
    pub code: u32,
    pub is_srgb: bool,
}

/// What a surface supports, each list in the order the driver reports it.
#[derive(Debug, Clone)]
pub struct SurfaceCaps {
    pub formats: Vec<TextureFormat>,
    pub present_modes: Vec<PresentMode>,
    pub alpha_modes: Vec<AlphaMode>,
}

/// The choices of an earlier surface.
#[derive(Debug, Clone, Copy, PartialEq, Eq, Structural)]
pub struct SurfaceDefaults {
    pub format: TextureFormat,
    pub present_mode: PresentMode,
    pub alpha_mode: AlphaMode,
}

/// A surface configuration.
#[derive(Debug, Clone, Copy, PartialEq, Eq, Structural)]
pub struct SurfaceConfig {
    pub format: TextureFormat,
    pub width: u32,
    pub height: u32,
    pub present_mode: PresentMode,
    /// Frames the presentation queue may hold: always one.
    pub max_frame_latency: u32,
    pub alpha_mode: AlphaMode,
}

/// The surface cannot be configured: no earlier choices fit and it reports
/// no capabilities (or no format).
#[derive(Debug, Clone, Copy, PartialEq, Eq, Structural)]
pub enum SurfaceError {
    Incompatible,
}

/// The first format that does not encode sRGB, if any.
pub open spec fn first_linear(formats: Seq<TextureFormat>, from: int) -> Option<TextureFormat>
    decreases formats.len() - from,
{
    if from < 0 || from >= formats.len() {
        None
    } else if !formats[from].is_srgb {
        Some(formats[from])
    } else {
        first_linear(formats, from + 1)
    }
}

/// A linear (non-sRGB) format when the surface offers one, else `fallback`.
pub fn select_surface_format(caps: &SurfaceCaps, fallback: TextureFormat) -> (f: TextureFormat)
    ensures
        f == (match first_linear(caps.formats@, 0) {
            Some(linear) => linear,
            None => fallback,
        }),
{
    let mut i: usize = 0;
    while i < caps.formats.len()
        invariant
            i <= caps.formats@.len(),
            first_linear(caps.formats@, 0) == first_linear(caps.formats@, i as int),
        decreases caps.formats.len() - i,
    {
        if !caps.formats[i].is_srgb {
            return caps.formats[i];
        }
        i += 1;
    }
    fallback
}

fn has_present_mode(modes: &Vec<PresentMode>, mode: PresentMode) -> (b: bool)
    ensures
        b == modes@.contains(mode),
{
    let mut i: usize = 0;
    while i < modes.len()
        invariant
            i <= modes@.len(),
            forall|k: int| 0 <= k < i ==> modes@[k] != mode,
        decreases modes.len() - i,
    {
        if modes[i] == mode {
            assert(modes@[i as int] == mode);
            return true;
        }
        i += 1;
    }
    false
}

fn has_alpha_mode(modes: &Vec<AlphaMode>, mode: AlphaMode) -> (b: bool)
    ensures
        b == modes@.contains(mode),
{
    let mut i: usize = 0;
    while i < modes.len()
        invariant
            i <= modes@.len(),
            forall|k: int| 0 <= k < i ==> modes@[k] != mode,
        decreases modes.len() - i,
    {
        if modes[i] == mode {
            assert(modes@[i as int] == mode);
            return true;
        }
        i += 1;
    }
    false
}

fn has_format(formats: &Vec<TextureFormat>, format: TextureFormat) -> (b: bool)
    ensures
        b == formats@.contains(format),
{
    let mut i: usize = 0;
    while i < formats.len()
        invariant
            i <= formats@.len(),
            forall|k: int| 0 <= k < i ==> formats@[k] != format,
        decreases formats.len() - i,
    {
        if formats[i] == format {
            assert(formats@[i as int] == format);
            return true;
        }
        i += 1;
    }
    false
}

/// The presentation mode: mailbox, else FIFO, else automatic vsync, when
/// offered; else the first mode offered; else FIFO.
pub open spec fn spec_present_mode(modes: Seq<PresentMode>) -> PresentMode {
    if modes.contains(PresentMode::Mailbox) {
        PresentMode::Mailbox
    } else if modes.contains(PresentMode::Fifo) {
        PresentMode::Fifo
    } else if modes.contains(PresentMode::AutoVsync) {
        PresentMode::AutoVsync
    } else if modes.len() > 0 {
        modes[0]
    } else {
        PresentMode::Fifo
    }
}

/// The presentation mode for a surface.
pub fn select_present_mode(caps: &SurfaceCaps) -> (m: PresentMode)
    ensures
        m == spec_present_mode(caps.present_modes@),
{
    if has_present_mode(&caps.present_modes, PresentMode::Mailbox) {
        PresentMode::Mailbox
    } else if has_present_mode(&caps.present_modes, PresentMode::Fifo) {
        PresentMode::Fifo
    } else if has_present_mode(&caps.present_modes, PresentMode::AutoVsync) {
        PresentMode::AutoVsync
    } else if caps.present_modes.len() > 0 {
        caps.present_modes[0]
    } else {
        PresentMode::Fifo
    }
}

/// The alpha mode: opaque unless transparency is wanted; then
/// pre-multiplied, post-multiplied, inherited or automatic, the first one
/// offered; opaque when none is.
pub open spec fn spec_alpha_mode(modes: Seq<AlphaMode>, transparency: bool) -> AlphaMode {
    if !transparency {
        AlphaMode::Opaque
    } else if modes.contains(AlphaMode::PreMultiplied) {
        AlphaMode::PreMultiplied
    } else if modes.contains(AlphaMode::PostMultiplied) {
        AlphaMode::PostMultiplied
    } else if modes.contains(AlphaMode::Inherit) {
        AlphaMode::Inherit
    } else if modes.contains(AlphaMode::Auto) {
        AlphaMode::Auto
    } else {
        AlphaMode::Opaque
    }
}

/// The alpha mode for a surface.
pub fn select_alpha_mode(caps: &SurfaceCaps, transparency: bool) -> (m: AlphaMode)
    ensures
        m == spec_alpha_mode(caps.alpha_modes@, transparency),
{
    if !transparency {
        AlphaMode::Opaque
    } else if has_alpha_mode(&caps.alpha_modes, AlphaMode::PreMultiplied) {
        AlphaMode::PreMultiplied
    } else if has_alpha_mode(&caps.alpha_modes, AlphaMode::PostMultiplied) {
        AlphaMode::PostMultiplied
    } else if has_alpha_mode(&caps.alpha_modes, AlphaMode::Inherit) {
        AlphaMode::Inherit
    } else if has_alpha_mode(&caps.alpha_modes, AlphaMode::Auto) {
        AlphaMode::Auto
    } else {
        AlphaMode::Opaque
    }
}

/// The surface supports all three earlier choices.
pub open spec fn spec_supports(caps: SurfaceCaps, d: SurfaceDefaults) -> bool {
    caps.formats@.contains(d.format) && caps.present_modes@.contains(d.present_mode)
        && caps.alpha_modes@.contains(d.alpha_mode)
}

/// Whether the surface supports the earlier choices.
pub fn surface_supports_defaults(caps: &SurfaceCaps, defaults: SurfaceDefaults) -> (b: bool)
    ensures
        b == spec_supports(*caps, defaults),
{
    has_format(&caps.formats, defaults.format) && has_present_mode(&caps.present_modes, defaults.present_mode)
        && has_alpha_mode(&caps.alpha_modes, defaults.alpha_mode)
}

pub open spec fn at_least_one(v: u32) -> u32 {
    if v >= 1 {
        v
    } else {
        1
    }
}

/// The configuration of a `width` x `height` surface (each at least one
/// pixel) and whether the earlier choices were reused: they are when given
/// and supported; else the surface's capabilities decide, which must list a
/// format.
pub open spec fn spec_surface_config(
    width: u32,
    height: u32,
    transparency: bool,
    preferred: Option<SurfaceDefaults>,
    caps: Option<SurfaceCaps>,
) -> Result<(SurfaceConfig, bool), SurfaceError> {
    if preferred is Some && caps is Some && spec_supports(caps->0, preferred->0) {
        let d = preferred->0;
        Ok((
            SurfaceConfig {
                format: d.format,
                width: at_least_one(width),
                height: at_least_one(height),
                present_mode: d.present_mode,
                max_frame_latency: 1,
                alpha_mode: d.alpha_mode,
            },
            true,
        ))
    } else if caps is None || caps->0.formats@.len() == 0 {
        Err(SurfaceError::Incompatible)
    } else {
        let c = caps->0;
        Ok((
            SurfaceConfig {
                format: match first_linear(c.formats@, 0) {
                    Some(linear) => linear,
                    None => c.formats@[0],
                },
                width: at_least_one(width),
                height: at_least_one(height),
                present_mode: spec_present_mode(c.present_modes@),
                max_frame_latency: 1,
                alpha_mode: spec_alpha_mode(c.alpha_modes@, transparency),
            },
            false,
        ))
    }
}

/// Configures a surface of `width` x `height` pixels.
pub fn build_surface_config(
    width: u32,
    height: u32,
    transparency: bool,
    preferred: Option<SurfaceDefaults>,
    caps: Option<&SurfaceCaps>,
) -> (r: Result<(SurfaceConfig, bool), SurfaceError>)
    ensures
        r == spec_surface_config(width, height, transparency, preferred, match caps {
            Some(c) => Some(*c),
            None => None,
        }),
{
    let w = if width >= 1 { width } else { 1 };
    let h = if height >= 1 { height } else { 1 };
    if let Some(defaults) = preferred {
        if let Some(c) = caps {
            if surface_supports_defaults(c, defaults) {
                return Ok((
                    SurfaceConfig {
                        format: defaults.format,
                        width: w,
                        height: h,
                        present_mode: defaults.present_mode,
                        max_frame_latency: 1,
                        alpha_mode: defaults.alpha_mode,
                    },
                    true,
                ));
            }
        }
    }
    let c = match caps {
        Some(c) => c,
        None => return Err(SurfaceError::Incompatible),
    };
    if c.formats.len() == 0 {
        return Err(SurfaceError::Incompatible);
    }
    let fallback = c.formats[0];
    Ok((
        SurfaceConfig {
            format: select_surface_format(c, fallback),
            width: w,
            height: h,
            present_mode: select_present_mode(c),
            max_frame_latency: 1,
            alpha_mode: select_alpha_mode(c, transparency),
        },
        false,
    ))
}

/// The surface format is linear whenever the surface offers a linear one,
/// and then it is the first linear format offered; otherwise the fallback
/// is kept.
pub proof fn law_surface_format_prefers_linear(formats: Seq<TextureFormat>, fallback: TextureFormat, k: int)
    requires
        0 <= k < formats.len(),
        !formats[k].is_srgb,
        forall|j: int| 0 <= j < k ==> #[trigger] formats[j].is_srgb,
    ensures
        first_linear(formats, 0) == Some(formats[k]),
{
    lemma_first_linear_from(formats, 0, k);
}

proof fn lemma_first_linear_from(formats: Seq<TextureFormat>, from: int, k: int)
    requires
        0 <= from <= k < formats.len(),
        !formats[k].is_srgb,
        forall|j: int| 0 <= j < k ==> #[trigger] formats[j].is_srgb,
    ensures
        first_linear(formats, from) == Some(formats[k]),
    decreases k - from,
{
    if from < k {
        lemma_first_linear_from(formats, from + 1, k);
    }
}

/// The present mode: mailbox whenever offered, else FIFO whenever offered,
/// else automatic vsync whenever offered; a mode chosen from a non-empty
/// list is always one the surface offers, and FIFO (which every surface
/// supports) when it offers none.
pub proof fn law_present_mode_preference(modes: Seq<PresentMode>)
    ensures
        modes.contains(PresentMode::Mailbox) ==> spec_present_mode(modes) == PresentMode::Mailbox,
        !modes.contains(PresentMode::Mailbox) && modes.contains(PresentMode::Fifo) ==> spec_present_mode(modes)
            == PresentMode::Fifo,
        !modes.contains(PresentMode::Mailbox) && !modes.contains(PresentMode::Fifo) && modes.contains(
            PresentMode::AutoVsync,
        ) ==> spec_present_mode(modes) == PresentMode::AutoVsync,
        modes.len() > 0 ==> modes.contains(spec_present_mode(modes)),
        modes.len() == 0 ==> spec_present_mode(modes) == PresentMode::Fifo,
{
    if modes.len() > 0 && !modes.contains(PresentMode::Mailbox) && !modes.contains(PresentMode::Fifo)
        && !modes.contains(PresentMode::AutoVsync) {
        assert(modes[0] == spec_present_mode(modes));
    }
}

/// Without transparency the surface is opaque. With it, the first of
/// pre-multiplied, post-multiplied, inherited and automatic alpha that the
/// compositor offers is used, so the result is always offered or opaque;
/// a compositor with none of them gets opaque alpha.
pub proof fn law_alpha_mode_preference(modes: Seq<AlphaMode>, transparency: bool)
    ensures
        !transparency ==> spec_alpha_mode(modes, transparency) == AlphaMode::Opaque,
        transparency && modes.contains(AlphaMode::PreMultiplied) ==> spec_alpha_mode(modes, transparency)
            == AlphaMode::PreMultiplied,
        transparency && !modes.contains(AlphaMode::PreMultiplied) && modes.contains(
            AlphaMode::PostMultiplied,
        ) ==> spec_alpha_mode(modes, transparency) == AlphaMode::PostMultiplied,
        transparency && modes.contains(AlphaMode::Auto) ==> spec_alpha_mode(modes, transparency)
            != AlphaMode::Opaque,
        spec_alpha_mode(modes, transparency) == AlphaMode::Opaque || modes.contains(
            spec_alpha_mode(modes, transparency),
        ),
{
}

} // verus!
