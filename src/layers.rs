use vstd::prelude::*;

verus! {

/// Relies on forma's `Order::MAX`: the largest layer index that its compositor can
/// represent. `Order` stores an index `i` as the non-zero value `i ^ u32::MAX`, so
/// its largest index is below `u32::MAX`.
#[verifier::external_body]
fn compositor_layer_limit() -> (r: u32)
    ensures
        r < u32::MAX,
{
    forma_render::Order::MAX.as_u32()
}

/// Why no further layer index could be handed out.
#[derive(Debug, Clone, Copy, PartialEq, Eq, Structural)]
pub enum LayerError {
    /// The next index is beyond what the compositor can represent.
    ExceededLayerLimit,
}

/// Hands out compositor layer indices in increasing order, one per glyph run,
/// and refuses any index that the compositor could not represent.
#[derive(Debug, Clone, Copy)]
pub struct LayerCounter {
    next: u32,
    limit: u32,
}

impl LayerCounter {
    /// The index that the next claim hands out.
    pub closed spec fn next_view(&self) -> u32 {
        self.next
    }

    /// The largest index that can be handed out.
    pub closed spec fn limit_view(&self) -> u32 {
        self.limit
    }

    #[verifier::type_invariant]
    closed spec fn inv(&self) -> bool {
        self.limit < u32::MAX
    }

    /// A counter whose first index is `start`, bounded by the compositor's limit.
    /// A start beyond the limit gives a counter whose every claim fails.
    pub fn new(start: u32) -> (r: Self)
        ensures
            r.next_view() == start,
            r.limit_view() < u32::MAX,
    {
        LayerCounter { next: start, limit: compositor_layer_limit() }
    }

    /// The index that the next claim hands out.
    pub fn next(&self) -> (r: u32)
        ensures
            r == self.next_view(),
    {
        self.next
    }

    /// The largest index that can be handed out.
    pub fn limit(&self) -> (r: u32)
        ensures
            r == self.limit_view(),
    {
        self.limit
    }

    /// Claims the next index. Fails, changing nothing, once the limit is passed.
    pub fn claim(&mut self) -> (r: Result<u32, LayerError>)
        ensures
            old(self).next_view() <= old(self).limit_view() ==> {
                &&& r == Ok::<u32, LayerError>(old(self).next_view())
                &&& final(self).next_view() == old(self).next_view() + 1
                &&& final(self).limit_view() == old(self).limit_view()
            },
            old(self).next_view() > old(self).limit_view() ==> {
                &&& r == Err::<u32, LayerError>(LayerError::ExceededLayerLimit)
                &&& *final(self) == *old(self)
            },
    {
        proof {
            use_type_invariant(&*self);
        }
        if self.next > self.limit {
            Err(LayerError::ExceededLayerLimit)
        } else {
            let index = self.next;
            self.next = index + 1;
            Ok(index)
        }
    }
}

} // verus!
