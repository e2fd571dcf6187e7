//! A toroidal Game-of-Life engine with a pannable, zoomable viewer core:
//! the double-buffered simulation step, the camera bookkeeping with its
//! dirty flag, and the viewport-culled instance generator.

use vstd::prelude::*;

pub mod camera;
pub mod cellpos;
pub mod event_chain;
pub mod field;
pub mod life;
pub mod patterns;
pub mod units;

use crate::camera::Camera;
use crate::cellpos::CellPosInstances;
use crate::life::Life;

verus! {

/// Drive one frame: advance the simulation by exactly one generation,
/// refresh the camera, and, exactly when the camera had pending changes,
/// rebuild the visible instance list from the fresh view box. The
/// simulation advances regardless of camera state.
pub fn advance_frame(life: &mut Life, camera: &mut Camera) -> (instances: Option<
    CellPosInstances,
>)
    requires
        old(life).wf(),
        old(camera).wf(),
    ensures
        final(life).wf(),
        final(camera).wf(),
        final(life).spec_info() == old(life).spec_info(),
        final(life)@ == crate::life::step_spec(
            old(life)@,
            old(life).spec_width() as int,
            old(life).spec_height() as int,
        ),
        *final(camera) == crate::camera::spec_updated(*old(camera)),
        match instances {
            Some(ci) => old(camera).update_required && ci@ == crate::life::visible_cells(
                old(life).spec_width() as int,
                old(life).spec_height() as int,
                crate::camera::spec_view_box(crate::camera::spec_updated(*old(camera))),
            ),
            None => !old(camera).update_required,
        },
{
    life.step();
    if camera.update() {
        let view_box = camera.view_box();
        Some(life.generate_cell_info(view_box))
    } else {
        None
    }
}

} // verus!
