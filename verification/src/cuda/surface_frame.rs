//! Frames of the surfaces of the back end, and what contexts are told of their images.

use std::collections::HashMap;
use vstd::prelude::*;

use super::present::{frame_begun, present_finished, FrameToken, PresentFinish};
use super::surface::{max2, CudaSurfaceState, SurfaceError};
use super::surface_flow::{drained, put_aside};
use super::surface_table::SurfaceTables;

verus! {

broadcast use vstd::std_specs::hash::group_hash_axioms;

/// What a context is told of an image of a swapchain.
#[derive(Clone, Copy, Debug, PartialEq, Eq, Structural)]
pub enum ImageSignal {
    Acquired { image: u32 },
    Returned { image: u32 },
}

/// A context was told something; one that is not known is told nothing.
pub open spec fn told(
    before: Map<u64, Vec<ImageSignal>>,
    after: Map<u64, Vec<ImageSignal>>,
    context: u64,
    signal: ImageSignal,
) -> bool {
    if before.contains_key(context) {
        &&& after == before.insert(context, after[context])
        &&& after[context]@ == before[context]@.push(signal)
    } else {
        after == before
    }
}

fn tell(queues: &mut HashMap<u64, Vec<ImageSignal>>, context: u64, signal: ImageSignal)
    ensures
        told(old(queues)@, final(queues)@, context, signal),
{
    if let Some(mut queue) = queues.remove(&context) {
        queue.push(signal);
        queues.insert(context, queue);
        assert(queues@ =~= old(queues)@.insert(context, queue));
    } else {
        assert(queues@ =~= old(queues)@);
    }
}

/// The companion of a device, if it is known and has one.
pub open spec fn companion_found(device_known: bool, companion: Option<u64>) -> Result<
    u64,
    SurfaceError,
> {
    if !device_known {
        Err(SurfaceError::InvalidDevice)
    } else {
        match companion {
            Some(c) => Ok(c),
            None => Err(SurfaceError::CompanionMissing),
        }
    }
}

/// A surface whose next frame is drawn to an image.
pub open spec fn image_acquired(state: CudaSurfaceState, image: u32) -> CudaSurfaceState {
    CudaSurfaceState { current_image_index: Some(image), ..state }
}

impl SurfaceTables {
    /// The fence value that the companion of a surface is waited for before its next frame;
    /// zero for none.
    pub fn frame_wait(&self, surface: u64, device_known: bool, companion: Option<u64>) -> (wait: Result<
        u64,
        SurfaceError,
    >)
        requires
            self.surfaces@.contains_key(surface) ==> self.surfaces@[surface].wf(),
        ensures
            wait == (if !self.surfaces@.contains_key(surface) {
                Err(SurfaceError::InvalidSurface)
            } else {
                match companion_found(device_known, companion) {
                    Err(e) => Err(e),
                    Ok(_) => {
                        let state = self.surfaces@[surface];
                        Ok(
                            max2(
                                state.slot_fence@[state.current_frame as int],
                                state.cmd_fence@[state.current_frame as int],
                            ),
                        )
                    },
                }
            }),
    {
        match self.surfaces.get(&surface) {
            None => Err(SurfaceError::InvalidSurface),
            Some(state) => {
                if !device_known {
                    return Err(SurfaceError::InvalidDevice);
                }
                match companion {
                    Some(_) => Ok(state.slot_wait()),
                    None => Err(SurfaceError::CompanionMissing),
                }
            },
        }
    }

    /// Notes the image that the next frame of a surface is drawn to, before anything is
    /// made for it: it stays noted where that fails.
    pub fn acquire_image(&mut self, surface: u64, image: u32) -> (result: Result<(), SurfaceError>)
        ensures
            if !old(self).surfaces@.contains_key(surface) {
                &&& result == Err::<(), SurfaceError>(SurfaceError::InvalidSurface)
                &&& final(self).surfaces@ == old(self).surfaces@
            } else {
                &&& result is Ok
                &&& final(self).surfaces@ == old(self).surfaces@.insert(
                    surface,
                    image_acquired(old(self).surfaces@[surface], image),
                )
            },
            *final(self) == (SurfaceTables { surfaces: final(self).surfaces, ..*old(self) }),
    {
        if let Some(mut state) = self.surfaces.remove(&surface) {
            state.current_image_index = Some(image);
            self.surfaces.insert(surface, state);
            assert(self.surfaces@ =~= old(self).surfaces@.insert(surface, state));
            Ok(())
        } else {
            assert(self.surfaces@ =~= old(self).surfaces@);
            Err(SurfaceError::InvalidSurface)
        }
    }

    /// Begins a frame of a surface with an image and the texture that is drawn to. The
    /// context is told that the image was acquired.
    pub fn begin_frame(
        &mut self,
        queues: &mut HashMap<u64, Vec<ImageSignal>>,
        surface: u64,
        context: u64,
        image: u32,
        texture: u64,
    ) -> (token: Result<FrameToken, SurfaceError>)
        requires
            old(self).surfaces@.contains_key(surface) ==> old(self).surfaces@[surface].wf(),
        ensures
            if !old(self).surfaces@.contains_key(surface) {
                &&& token == Err::<FrameToken, SurfaceError>(SurfaceError::InvalidSurface)
                &&& final(self).surfaces@ == old(self).surfaces@
                &&& final(queues)@ == old(queues)@
            } else {
                let state = old(self).surfaces@[surface];
                &&& token == Ok::<FrameToken, SurfaceError>(
                    FrameToken {
                        surface,
                        image: image as usize,
                        context,
                        frame_slot: image,
                        present_slot: state.current_frame,
                    },
                )
                &&& final(self).surfaces@ == old(self).surfaces@.insert(
                    surface,
                    frame_begun(state, image, texture),
                )
                &&& frame_begun(state, image, texture).wf()
                &&& told(old(queues)@, final(queues)@, context, ImageSignal::Acquired { image })
            },
            *final(self) == (SurfaceTables { surfaces: final(self).surfaces, ..*old(self) }),
    {
        if let Some(mut state) = self.surfaces.remove(&surface) {
            let token = state.begin_frame(surface, context, image, texture);
            self.surfaces.insert(surface, state);
            assert(self.surfaces@ =~= old(self).surfaces@.insert(surface, state));
            tell(queues, context, ImageSignal::Acquired { image });
            Ok(token)
        } else {
            assert(self.surfaces@ =~= old(self).surfaces@);
            Err(SurfaceError::InvalidSurface)
        }
    }

    /// Takes in that a present was submitted, and tells its timeline value. The context is
    /// told that the image was returned, also where the present failed after its copy;
    /// of a surface that is gone nothing is noted.
    pub fn finish_present(
        &mut self,
        queues: &mut HashMap<u64, Vec<ImageSignal>>,
        finish: &PresentFinish,
    ) -> (result: Result<u64, SurfaceError>)
        requires
            ({
                let surface = finish.frame.surface;
                old(self).surfaces@.contains_key(surface) ==> {
                    let state = old(self).surfaces@[surface];
                    &&& state.wf()
                    &&& finish.frame.present_slot < state.scratch@.len()
                    &&& finish.frame.image < state.scratch@.len()
                }
            }),
            finish.frame.image <= u32::MAX,
        ensures
            result == (if finish.present_ok {
                Ok(finish.present_timeline)
            } else {
                Err(SurfaceError::PresentFailed { return_fence: finish.return_fence })
            }),
            ({
                let surface = finish.frame.surface;
                if !old(self).surfaces@.contains_key(surface) {
                    &&& final(self).surfaces@ == old(self).surfaces@
                    &&& final(queues)@ == old(queues)@
                } else {
                    let after = final(self).surfaces@[surface];
                    &&& final(self).surfaces@ == old(self).surfaces@.insert(surface, after)
                    &&& present_finished(old(self).surfaces@[surface], after, *finish)
                    &&& after.wf()
                    &&& told(
                        old(queues)@,
                        final(queues)@,
                        finish.frame.context,
                        ImageSignal::Returned { image: finish.frame.image as u32 },
                    )
                }
            }),
            *final(self) == (SurfaceTables { surfaces: final(self).surfaces, ..*old(self) }),
    {
        let surface: u64 = finish.frame.surface;
        if let Some(mut state) = self.surfaces.remove(&surface) {
            let result = state.finish_present(finish);
            self.surfaces.insert(surface, state);
            assert(self.surfaces@ =~= old(self).surfaces@.insert(surface, state));
            tell(
                queues,
                finish.frame.context,
                ImageSignal::Returned { image: finish.frame.image as u32 },
            );
            result
        } else {
            assert(self.surfaces@ =~= old(self).surfaces@);
            if finish.present_ok {
                Ok(finish.present_timeline)
            } else {
                Err(SurfaceError::PresentFailed { return_fence: finish.return_fence })
            }
        }
    }
}

/// An image that was acquired stays the current one while its scratch is looked at and
/// put aside, and beginning the frame with it changes nothing of that.
pub proof fn acquired_image_stays_current(
    state: CudaSurfaceState,
    looked_at: CudaSurfaceState,
    aside: CudaSurfaceState,
    image: u32,
    completed: u64,
    texture: u64,
)
    requires
        drained(image_acquired(state, image), looked_at, completed),
    ensures
        looked_at.current_image_index == Some(image),
        put_aside(looked_at, aside, image as int) ==> aside.current_image_index == Some(image),
        frame_begun(image_acquired(state, image), image, texture) == frame_begun(
            state,
            image,
            texture,
        ),
{
}

/// A context that is told of a frame hears that its image was acquired and then that it
/// was returned; other contexts hear nothing of it.
pub proof fn acquired_images_are_returned(
    before: Map<u64, Vec<ImageSignal>>,
    begun: Map<u64, Vec<ImageSignal>>,
    after: Map<u64, Vec<ImageSignal>>,
    context: u64,
    image: u32,
    other: u64,
)
    requires
        told(before, begun, context, ImageSignal::Acquired { image }),
        told(begun, after, context, ImageSignal::Returned { image }),
    ensures
        before.contains_key(context) ==> after[context]@ == before[context]@ + seq![
            ImageSignal::Acquired { image },
            ImageSignal::Returned { image },
        ],
        other != context && before.contains_key(other) ==> after[other] == before[other],
        after.dom() == before.dom(),
{
    if before.contains_key(context) {
        assert(begun.contains_key(context));
        assert(after[context]@ =~= before[context]@ + seq![
            ImageSignal::Acquired { image },
            ImageSignal::Returned { image },
        ]);
    }
    assert(after.dom() =~= before.dom());
}

} // verus!
