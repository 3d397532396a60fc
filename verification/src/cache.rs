//! The resource cache: one buffer allocation per buffer view.
//!
//! GPU buffer allocations are deduplicated by the identity of the
//! source buffer view they were cut from.  The first request for a
//! view copies its byte range out of the decoded source buffer,
//! rounded up to the 4-byte hardware alignment; every later request
//! for the same view returns the same handle and changes nothing.

use vstd::prelude::*;
use vstd::pervasive::VecAdditionalExecFns;
use crate::desc::BufferViewDesc;
use crate::error::ResourceError;

verus! {

/// Buffer usage a view was first requested with.
#[derive(Debug, Clone, Copy, PartialEq, Eq, Structural)]
pub enum BufferUsage {
    Vertex,
    Index,
}

/// One planned GPU buffer allocation: the padded byte image of a
/// buffer view, ready to upload.
#[derive(Debug)]
pub struct BufferPlan {
    /// The view this allocation was cut from.
    pub view_index: usize,
    /// Allocation size in bytes, a multiple of 4.
    pub size: usize,
    /// Usage the view was first requested with.
    pub usage: BufferUsage,
    /// The bytes to upload: exactly the view's padded source range.
    pub contents: Vec<u8>,
}

/// Mathematical image of one planned allocation.
pub ghost struct PlanModel {
    pub view_index: int,
    pub size: int,
    pub usage: BufferUsage,
    pub contents: Seq<u8>,
}

impl View for BufferPlan {
    type V = PlanModel;

    open spec fn view(&self) -> PlanModel {
        PlanModel {
            view_index: self.view_index as int,
            size: self.size as int,
            usage: self.usage,
            contents: self.contents@,
        }
    }
}

/// The cache itself: one slot per buffer view of the scene, filled on
/// first request.
#[derive(Debug)]
pub struct ResourceCache {
    pub slots: Vec<Option<BufferPlan>>,
}

impl View for ResourceCache {
    type V = Seq<Option<PlanModel>>;

    open spec fn view(&self) -> Seq<Option<PlanModel>> {
        self.slots@.map(
            |_i: int, s: Option<BufferPlan>|
                match s {
                    Some(p) => Some(p@),
                    None => None,
                },
        )
    }
}

/// `n` rounded up to the nearest multiple of 4.
pub open spec fn round_up4(n: int) -> int {
    if n % 4 == 0 {
        n
    } else {
        (n / 4 + 1) * 4
    }
}

/// The allocation a view resolves to against the given decoded
/// buffers, or the error that resolving it raises.
pub open spec fn spec_buffer_plan(
    view: BufferViewDesc,
    view_index: int,
    buffers: Seq<Seq<u8>>,
    usage: BufferUsage,
) -> Result<PlanModel, ResourceError> {
    let size = round_up4(view.length as int);
    if view.buffer >= buffers.len() {
        Err(ResourceError::BufferOutOfRange)
    } else if view.offset + size > buffers[view.buffer as int].len() {
        Err(ResourceError::RangeOutOfBounds)
    } else {
        Ok(
            PlanModel {
                view_index,
                size,
                usage,
                contents: buffers[view.buffer as int].subrange(
                    view.offset as int,
                    view.offset + size,
                ),
            },
        )
    }
}

/// The cache transition of one request: an already-filled slot is
/// returned as is; an empty slot is filled with the view's resolved
/// allocation, or the request fails and the cache is unchanged.
pub open spec fn spec_get_or_create(
    cache: Seq<Option<PlanModel>>,
    views: Seq<BufferViewDesc>,
    buffers: Seq<Seq<u8>>,
    view_index: int,
    usage: BufferUsage,
) -> (Seq<Option<PlanModel>>, Result<int, ResourceError>) {
    match cache[view_index] {
        Some(_) => (cache, Ok(view_index)),
        None => match spec_buffer_plan(views[view_index], view_index, buffers, usage) {
            Ok(p) => (cache.update(view_index, Some(p)), Ok(view_index)),
            Err(e) => (cache, Err(e)),
        },
    }
}

impl ResourceCache {
    /// One empty slot per buffer view of the scene.
    pub fn new(view_count: usize) -> (r: ResourceCache)
        ensures
            r@.len() == view_count,
            forall|i: int| 0 <= i < view_count ==> r@[i] is None,
    {
        let mut slots: Vec<Option<BufferPlan>> = Vec::new();
        let mut i: usize = 0;
        while i < view_count
            invariant
                i <= view_count,
                slots@.len() == i,
                forall|j: int| 0 <= j < i ==> slots@[j] is None,
            decreases view_count - i,
        {
            slots.push(None);
            i = i + 1;
        }
        ResourceCache { slots }
    }

    /// Handle and allocation for a buffer view, deduplicated by the
    /// view's identity: the same view always yields the same handle,
    /// and its allocation is made at most once.
    ///
    /// The allocation pads the view's length up to a multiple of 4 and
    /// copies exactly the padded source range out of the decoded
    /// buffer.  Fails if the view names a source buffer that does not
    /// exist, or a byte range the buffer cannot cover.
    pub fn get_or_create(
        &mut self,
        views: &Vec<BufferViewDesc>,
        buffers: &Vec<Vec<u8>>,
        view_index: usize,
        usage: BufferUsage,
    ) -> (r: Result<usize, ResourceError>)
        requires
            old(self)@.len() == views@.len(),
            view_index < views@.len(),
        ensures
            final(self)@.len() == old(self)@.len(),
            final(self)@ == spec_get_or_create(
                old(self)@,
                views@,
                buffers.deep_view(),
                view_index as int,
                usage,
            ).0,
            (match (
                r,
                spec_get_or_create(
                    old(self)@,
                    views@,
                    buffers.deep_view(),
                    view_index as int,
                    usage,
                ).1,
            ) {
                (Ok(h), Ok(hs)) => h == hs,
                (Err(e), Err(es)) => e == es,
                _ => false,
            }),
    {
        if self.slots[view_index].is_some() {
            return Ok(view_index);
        }
        let view = &views[view_index];
        let length = view.length;
        let offset = view.offset;
        if view.buffer >= buffers.len() {
            return Err(ResourceError::BufferOutOfRange);
        }
        let buf = &buffers[view.buffer];
        let buf_len = buf.len();
        proof {
            assert(buf@ == buffers.deep_view()[view.buffer as int]);
        }
        let size: usize;
        if length % 4 == 0 {
            size = length;
        } else {
            let q = length / 4 + 1;
            if q > usize::MAX / 4 {
                // The padded size cannot even be represented, so no
                // buffer can cover the range.
                proof {
                    assert(round_up4(length as int) == (length as int / 4 + 1) * 4);
                    assert(q as int == length as int / 4 + 1);
                    assert(q as int * 4 > usize::MAX as int) by {
                        assert(q as int >= usize::MAX as int / 4 + 1);
                        assert((usize::MAX as int / 4 + 1) * 4 > usize::MAX as int) by (nonlinear_arith);
                    };
                    assert(buf@.len() <= usize::MAX as int);
                }
                return Err(ResourceError::RangeOutOfBounds);
            }
            size = q * 4;
        }
        if buf.len() < offset {
            return Err(ResourceError::RangeOutOfBounds);
        }
        if buf.len() - offset < size {
            return Err(ResourceError::RangeOutOfBounds);
        }
        let mut contents: Vec<u8> = Vec::new();
        let mut i: usize = 0;
        while i < size
            invariant
                i <= size,
                offset + size <= buf@.len(),
                buf@.len() <= usize::MAX,
                contents@ == buf@.subrange(offset as int, offset + i),
            decreases size - i,
        {
            contents.push(buf[offset + i]);
            proof {
                assert(contents@ =~= buf@.subrange(offset as int, offset + i + 1));
            }
            i = i + 1;
        }
        let plan = BufferPlan { view_index, size, usage, contents };
        self.slots.set(view_index, Some(plan));
        proof {
            assert(self@ =~= spec_get_or_create(
                old(self)@,
                views@,
                buffers.deep_view(),
                view_index as int,
                usage,
            ).0);
        }
        Ok(view_index)
    }
}

/// Requests against the cache are idempotent: once a view has
/// resolved to a handle, every later request with the same view
/// identity returns the identical handle and leaves every slot of the
/// cache, including the allocation itself, unchanged.
pub proof fn lemma_cache_idempotent(
    cache: Seq<Option<PlanModel>>,
    views: Seq<BufferViewDesc>,
    buffers: Seq<Seq<u8>>,
    view_index: int,
    usage: BufferUsage,
    usage2: BufferUsage,
)
    requires
        0 <= view_index < cache.len(),
        cache.len() == views.len(),
        spec_get_or_create(cache, views, buffers, view_index, usage).1 is Ok,
    ensures
        ({
            let (c1, r1) = spec_get_or_create(cache, views, buffers, view_index, usage);
            let (c2, r2) = spec_get_or_create(c1, views, buffers, view_index, usage2);
            &&& r1 == Ok::<int, ResourceError>(view_index)
            &&& r2 == Ok::<int, ResourceError>(view_index)
            &&& c2 == c1
        }),
{
}

/// A request for one view never disturbs the slot of any other view.
pub proof fn lemma_cache_frames_other_views(
    cache: Seq<Option<PlanModel>>,
    views: Seq<BufferViewDesc>,
    buffers: Seq<Seq<u8>>,
    view_index: int,
    usage: BufferUsage,
)
    requires
        0 <= view_index < cache.len(),
        cache.len() == views.len(),
    ensures
        forall|j: int|
            0 <= j < cache.len() && j != view_index ==> spec_get_or_create(
                cache,
                views,
                buffers,
                view_index,
                usage,
            ).0[j] == cache[j],
{
}

} // verus!
