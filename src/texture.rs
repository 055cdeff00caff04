use vstd::prelude::*;

use crate::layout::{align_up, plan_layout, ReadbackLayout};

verus! {

#[verifier::external_type_specification]
#[verifier::external_body]
pub struct ExTexture(wgpu::Texture);

/// The width a texture was created with.
pub uninterp spec fn width_of(t: wgpu::Texture) -> u32;

/// The height a texture was created with.
pub uninterp spec fn height_of(t: wgpu::Texture) -> u32;

/// Relies on wgpu::COPY_BYTES_PER_ROW_ALIGNMENT: the multiple of bytes at which each row of a
/// texture-to-buffer copy must start (256 in wgpu-types).
#[verifier::external_body]
fn copy_row_alignment() -> (r: u32)
    ensures
        r == 256,
{
    wgpu::COPY_BYTES_PER_ROW_ALIGNMENT
}

/// Relies on wgpu::Texture::width: the width the texture was created with.
#[verifier::external_body]
fn texture_width(texture: &wgpu::Texture) -> (r: u32)
    ensures
        r == width_of(*texture),
{
    texture.width()
}

/// Relies on wgpu::Texture::height: the height the texture was created with.
#[verifier::external_body]
fn texture_height(texture: &wgpu::Texture) -> (r: u32)
    ensures
        r == height_of(*texture),
{
    texture.height()
}

/// Plans the readback of `texture` with the row alignment that wgpu asks of buffer copies:
/// the layout describes the texture's own width and height, and `None` comes only when a
/// padded row would not fit in a `u32`.
pub fn plan_texture_readback(texture: &wgpu::Texture) -> (r: Option<ReadbackLayout>)
    ensures
        r is None <==> align_up(width_of(*texture) * 4, 256) > u32::MAX,
        r matches Some(l) ==> l.wf() && l.describes(width_of(*texture) as int, height_of(*texture) as int, 256),
{
    let align = copy_row_alignment();
    let width = texture_width(texture);
    let height = texture_height(texture);
    plan_layout(width, height, align)
}

} // verus!
