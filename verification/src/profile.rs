//! Timing breakdowns of GPU setup and rendering, in nanoseconds.

use vstd::prelude::*;

verus! {

/// Sum of two durations, saturating at the largest duration.
pub open spec fn sat_add(a: u64, b: u64) -> u64 {
    if a + b <= u64::MAX { (a + b) as u64 } else { u64::MAX }
}

/// Difference of two durations, saturating at zero.
pub open spec fn sat_sub(a: u64, b: u64) -> u64 {
    if a >= b { (a - b) as u64 } else { 0 }
}

/// Time spent bringing up the shared GPU context, by step.
#[derive(Debug, Clone, Copy, Default, PartialEq, Eq, Structural)]
pub struct SharedGpuInitProfile {
    pub adapter_request: u64,
    pub device_request: u64,
    pub bind_group_layout: u64,
    pub shader_modules: u64,
    pub pipeline_layout: u64,
    pub sampler: u64,
    pub atlas_texture: u64,
    pub total: u64,
}

/// Time spent creating a window surface, by step, and whether cached
/// pipelines and surface defaults could be reused.
#[derive(Debug, Clone, Copy, Default, PartialEq, Eq, Structural)]
pub struct GpuSurfaceCreateProfile {
    pub window_create: u64,
    pub ime_setup: u64,
    pub surface_create: u64,
    pub default_config: u64,
    pub capabilities: u64,
    pub configure: u64,
    pub atlas_texture: u64,
    pub uniform_buffer: u64,
    pub instance_buffers: u64,
    pub bind_group: u64,
    pub pipeline_lookup: u64,
    pub total: u64,
    pub pipeline_cache_hit: bool,
    pub reused_surface_defaults: bool,
}

/// Time spent in steps that wait on the compositor.
pub open spec fn spec_compositor_facing(p: GpuSurfaceCreateProfile) -> u64 {
    sat_add(sat_add(sat_add(p.window_create, p.surface_create), p.capabilities), p.configure)
}

/// Time spent in the terminal's own setup steps.
pub open spec fn spec_handterm_setup(p: GpuSurfaceCreateProfile) -> u64 {
    sat_add(
        sat_add(
            sat_add(
                sat_add(
                    sat_add(sat_add(p.ime_setup, p.default_config), p.atlas_texture),
                    p.uniform_buffer,
                ),
                p.instance_buffers,
            ),
            p.bind_group,
        ),
        p.pipeline_lookup,
    )
}

impl GpuSurfaceCreateProfile {
    /// Window creation, surface creation, capability query and configuration.
    pub fn compositor_facing_total(self) -> (d: u64)
        ensures
            d == spec_compositor_facing(self),
    {
        self.window_create.saturating_add(self.surface_create).saturating_add(
            self.capabilities,
        ).saturating_add(self.configure)
    }

    /// Input-method setup, default configuration, atlas, buffers, bind group
    /// and pipeline lookup.
    pub fn handterm_setup_total(self) -> (d: u64)
        ensures
            d == spec_handterm_setup(self),
    {
        self.ime_setup.saturating_add(self.default_config).saturating_add(
            self.atlas_texture,
        ).saturating_add(self.uniform_buffer).saturating_add(self.instance_buffers).saturating_add(
            self.bind_group,
        ).saturating_add(self.pipeline_lookup)
    }

    /// The part of the total not accounted for by the measured steps, or
    /// zero when the steps add up to more than the total.
    pub fn unaccounted_total(self) -> (d: u64)
        ensures
            d == sat_sub(self.total, sat_add(spec_compositor_facing(self), spec_handterm_setup(self))),
    {
        self.total.saturating_sub(
            self.compositor_facing_total().saturating_add(self.handterm_setup_total()),
        )
    }
}

/// Time spent rendering one frame, by step.
#[derive(Debug, Clone, Copy, Default, PartialEq, Eq, Structural)]
pub struct GpuRenderProfile {
    pub acquire_surface: u64,
    pub build_display_list: u64,
    pub upload_buffers: u64,
    pub encode_pass: u64,
    pub submit: u64,
    pub present: u64,
    pub total: u64,
}

/// The accounted steps never exceed the total: what is measured plus what
/// is unaccounted equals the total whenever the steps fit within it.
pub proof fn law_profile_parts_add_up(p: GpuSurfaceCreateProfile)
    ensures
        ({
            let accounted = sat_add(spec_compositor_facing(p), spec_handterm_setup(p));
            let rest = sat_sub(p.total, accounted);
            (accounted <= p.total ==> accounted + rest == p.total) && (accounted > p.total
                ==> rest == 0)
        }),
{
}

} // verus!
