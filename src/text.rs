use vstd::prelude::*;

use crate::layers::{LayerCounter, LayerError};
use crate::rich_text::RichText;

verus! {

/// The drawables of one glyph run, in local space, and the compositor layer that
/// the run was given.
pub struct GlyphRunCache<D> {
    layer_id: u32,
    glyphs: Vec<D>,
}

impl<D> GlyphRunCache<D> {
    pub closed spec fn layer_view(&self) -> nat {
        self.layer_id as nat
    }

    pub closed spec fn glyphs_view(&self) -> Seq<D> {
        self.glyphs@
    }

    /// The compositor layer of the run.
    pub fn layer_id(&self) -> (r: u32)
        ensures
            r == self.layer_view(),
    {
        self.layer_id
    }

    /// The drawables of the run, in glyph order.
    pub fn glyphs(&self) -> (r: &Vec<D>)
        ensures
            r@ == self.glyphs_view(),
    {
        &self.glyphs
    }
}

/// Runs numbered `first, first + 1, ...` in order.
pub open spec fn numbered_from<D>(runs: Seq<GlyphRunCache<D>>, first: nat) -> bool {
    forall|i: int| 0 <= i < runs.len() ==> (#[trigger] runs[i]).layer_view() == first + i
}

/// Layers given out in one layout pass: one more for each run, so each is above
/// those before it and none is given twice.
pub proof fn lemma_layers_increase<D>(runs: Seq<GlyphRunCache<D>>, first: nat)
    requires
        numbered_from(runs, first),
    ensures
        forall|i: int, j: int|
            0 <= i < j < runs.len() ==> (#[trigger] runs[i]).layer_view() < (
            #[trigger] runs[j]).layer_view(),
        forall|i: int|
            0 < i < runs.len() ==> (#[trigger] runs[i]).layer_view() == runs[i - 1].layer_view()
                + 1,
{
}

/// The glyph runs built by one layout pass, each claiming the next layer.
pub struct LayoutPass<D> {
    counter: LayerCounter,
    first: u32,
    runs: Vec<GlyphRunCache<D>>,
}

impl<D> LayoutPass<D> {
    pub closed spec fn runs_view(&self) -> Seq<GlyphRunCache<D>> {
        self.runs@
    }

    /// The layer that the pass's first run claims.
    pub closed spec fn first_view(&self) -> nat {
        self.first as nat
    }

    /// The counter, as it stands after the runs claimed so far.
    pub closed spec fn counter_view(&self) -> LayerCounter {
        self.counter
    }

    #[verifier::type_invariant]
    closed spec fn inv(&self) -> bool {
        &&& numbered_from(self.runs@, self.first as nat)
        &&& self.counter.next_view() == self.first + self.runs@.len()
    }

    /// A pass with no run yet, whose runs claim layers from `counter`.
    pub fn new(counter: LayerCounter) -> (r: Self)
        ensures
            r.runs_view() == Seq::<GlyphRunCache<D>>::empty(),
            r.first_view() == counter.next_view(),
            r.counter_view() == counter,
    {
        let first = counter.next();
        LayoutPass { counter, first, runs: Vec::new() }
    }

    /// The runs built so far.
    pub fn runs(&self) -> (r: &Vec<GlyphRunCache<D>>)
        ensures
            r@ == self.runs_view(),
    {
        &self.runs
    }

    /// The counter, as it stands after the runs claimed so far.
    pub fn counter(&self) -> (r: LayerCounter)
        ensures
            r == self.counter_view(),
    {
        self.counter
    }

    /// Starts a run on the next layer. When the compositor has no layer left, the
    /// pass comes back as it was.
    pub fn start_run(self) -> (r: (Self, Result<u32, LayerError>))
        ensures
            self.counter_view().next_view() <= self.counter_view().limit_view() ==> {
                &&& r.1 == Ok::<u32, LayerError>(self.counter_view().next_view())
                &&& r.1.unwrap() == self.first_view() + self.runs_view().len()
                &&& r.0.runs_view().len() == self.runs_view().len() + 1
                &&& r.0.runs_view().drop_last() == self.runs_view()
                &&& r.0.runs_view().last().layer_view() == r.1.unwrap()
                &&& r.0.runs_view().last().glyphs_view() == Seq::<D>::empty()
                &&& r.0.first_view() == self.first_view()
                &&& r.0.counter_view().next_view() == self.counter_view().next_view() + 1
                &&& r.0.counter_view().limit_view() == self.counter_view().limit_view()
            },
            self.counter_view().next_view() > self.counter_view().limit_view() ==> {
                &&& r.1 == Err::<u32, LayerError>(LayerError::ExceededLayerLimit)
                &&& r.0 == self
            },
    {
        proof {
            use_type_invariant(&self);
        }
        let LayoutPass { counter, first, runs } = self;
        let mut counter = counter;
        let mut runs = runs;
        match counter.claim() {
            Ok(layer_id) => {
                let ghost before = runs@;
                runs.push(GlyphRunCache { layer_id, glyphs: Vec::new() });
                assert(runs@.drop_last() =~= before);
                assert(numbered_from(runs@, first as nat)) by {
                    assert forall|i: int| 0 <= i < runs@.len() implies (
                    #[trigger] runs@[i]).layer_view() == first + i by {
                        if i < runs@.len() - 1 {
                            assert(runs@[i] == before[i]);
                        }
                    }
                }
                (LayoutPass { counter, first, runs }, Ok(layer_id))
            },
            Err(e) => (LayoutPass { counter, first, runs }, Err(e)),
        }
    }

    /// Appends a drawable to the run started last.
    pub fn push_glyph(self, glyph: D) -> (r: Self)
        requires
            self.runs_view().len() > 0,
        ensures
            r.runs_view().len() == self.runs_view().len(),
            r.runs_view().drop_last() == self.runs_view().drop_last(),
            r.runs_view().last().layer_view() == self.runs_view().last().layer_view(),
            r.runs_view().last().glyphs_view() == self.runs_view().last().glyphs_view().push(
                glyph,
            ),
            r.first_view() == self.first_view(),
            r.counter_view() == self.counter_view(),
    {
        proof {
            use_type_invariant(&self);
        }
        let LayoutPass { counter, first, runs } = self;
        let mut runs = runs;
        let ghost before = runs@;
        let mut run = runs.pop().unwrap();
        run.glyphs.push(glyph);
        runs.push(run);
        assert(runs@.drop_last() =~= before.drop_last());
        assert(numbered_from(runs@, first as nat)) by {
            assert forall|i: int| 0 <= i < runs@.len() implies (#[trigger] runs@[i]).layer_view()
                == first + i by {
                if i < runs@.len() - 1 {
                    assert(runs@[i] == before[i]);
                }
            }
        }
        LayoutPass { counter, first, runs }
    }

    /// Splits the pass into its runs and the counter after them.
    pub fn finish(self) -> (r: (Vec<GlyphRunCache<D>>, LayerCounter))
        ensures
            r.0@ == self.runs_view(),
            r.1 == self.counter_view(),
            numbered_from(r.0@, self.first_view()),
            r.1.next_view() == self.first_view() + r.0@.len(),
    {
        proof {
            use_type_invariant(&self);
        }
        (self.runs, self.counter)
    }
}

/// A block of styled text that keeps, between layout passes, the drawables of its
/// glyph runs and the size of its last layout. Shaping and rasterizing happen in a
/// layout call only after the text was replaced or the layout invalidated.
pub struct Text<P, D, S> {
    text: RichText<P>,
    cache: Vec<GlyphRunCache<D>>,
    first_layer: Ghost<nat>,
    cached_size: S,
    needs_layout: bool,
}

impl<P, D, S: Copy> Text<P, D, S> {
    pub closed spec fn rich_text_view(&self) -> RichText<P> {
        self.text
    }

    pub closed spec fn runs_view(&self) -> Seq<GlyphRunCache<D>> {
        self.cache@
    }

    pub closed spec fn needs_layout_view(&self) -> bool {
        self.needs_layout
    }

    pub closed spec fn cached_size_view(&self) -> S {
        self.cached_size
    }

    /// The size that a layout call returns without shaping, if there is one.
    pub open spec fn layout_result(&self) -> Option<S> {
        if self.needs_layout_view() {
            None
        } else {
            Some(self.cached_size_view())
        }
    }

    /// The text is well formed and the cached runs hold consecutive layers.
    pub closed spec fn wf(&self) -> bool {
        &&& self.text.wf()
        &&& numbered_from(self.cache@, self.first_layer@)
    }

    /// What a layout call does when no shaping is asked for: it returns the size
    /// of the last layout and changes neither the widget nor the counter.
    pub open spec fn reuses_layout(
        before: Self,
        after: Self,
        counter_before: LayerCounter,
        counter_after: LayerCounter,
        r: S,
    ) -> bool {
        !before.needs_layout_view() ==> {
            &&& after == before
            &&& counter_after == counter_before
            &&& r == before.cached_size_view()
        }
    }

    /// A widget for `text` that has not been laid out; `empty` is its size until then.
    pub fn new(text: RichText<P>, empty: S) -> (r: Self)
        requires
            text.wf(),
        ensures
            r.wf(),
            r.rich_text_view() == text,
            r.runs_view() == Seq::<GlyphRunCache<D>>::empty(),
            r.needs_layout_view(),
            r.cached_size_view() == empty,
    {
        Text {
            text,
            cache: Vec::new(),
            first_layer: Ghost(0),
            cached_size: empty,
            needs_layout: true,
        }
    }

    /// Replaces the text, dropping the cached runs; the next layout shapes anew.
    pub fn update(&mut self, text: RichText<P>, empty: S)
        requires
            text.wf(),
        ensures
            final(self).wf(),
            final(self).rich_text_view() == text,
            final(self).runs_view() == Seq::<GlyphRunCache<D>>::empty(),
            final(self).needs_layout_view(),
            final(self).cached_size_view() == empty,
    {
        self.text = text;
        self.needs_layout = true;
        self.cache.clear();
        self.first_layer = Ghost(0);
        self.cached_size = empty;
    }

    /// Asks for a new layout on the next call, as when the proposed size changes.
    pub fn invalidate(&mut self)
        ensures
            final(self).rich_text_view() == old(self).rich_text_view(),
            final(self).runs_view() == old(self).runs_view(),
            final(self).cached_size_view() == old(self).cached_size_view(),
            final(self).needs_layout_view(),
            old(self).wf() ==> final(self).wf(),
    {
        self.needs_layout = true;
    }

    /// The size that a layout call returns without shaping, if there is one.
    pub fn cached_layout(&self) -> (r: Option<S>)
        ensures
            r == self.layout_result(),
    {
        if self.needs_layout {
            None
        } else {
            Some(self.cached_size)
        }
    }

    /// The text.
    pub fn rich_text(&self) -> (r: &RichText<P>)
        ensures
            *r == self.rich_text_view(),
    {
        &self.text
    }

    /// The cached runs, in the order in which they were laid out.
    pub fn runs(&self) -> (r: &Vec<GlyphRunCache<D>>)
        ensures
            r@ == self.runs_view(),
    {
        &self.cache
    }

    /// Lays the text out. When nothing asked for a new layout, returns the size of
    /// the last one and leaves everything as it is, without calling `shape`.
    /// Otherwise `shape` shapes and rasterizes the text, building its runs with
    /// layers claimed from `counter`; its runs replace the cache in full, the
    /// counter it ends with is handed back, and its size is kept and returned.
    pub fn layout<F>(&mut self, counter: &mut LayerCounter, shape: F) -> (r: S) where
        F: FnOnce(&RichText<P>, LayerCounter) -> (LayoutPass<D>, S),

        requires
            old(self).wf(),
            old(self).needs_layout_view() ==> call_requires(
                shape,
                (&old(self).rich_text_view(), *old(counter)),
            ),
        ensures
            final(self).wf(),
            final(self).layout_result() == Some(r),
            final(self).rich_text_view() == old(self).rich_text_view(),
            Self::reuses_layout(*old(self), *final(self), *old(counter), *final(counter), r),
            old(self).needs_layout_view() ==> exists|pass: LayoutPass<D>|
                {
                    &&& call_ensures(
                        shape,
                        (&old(self).rich_text_view(), *old(counter)),
                        (pass, r),
                    )
                    &&& final(self).runs_view() == pass.runs_view()
                    &&& numbered_from(final(self).runs_view(), pass.first_view())
                    &&& *final(counter) == pass.counter_view()
                },
    {
        if !self.needs_layout {
            return self.cached_size;
        }
        let (pass, size) = shape(&self.text, *counter);
        let ghost shaped = pass;
        let ghost first = pass.first_view();
        let (runs, next) = pass.finish();
        self.cache = runs;
        self.first_layer = Ghost(first);
        *counter = next;
        self.cached_size = size;
        self.needs_layout = false;
        assert(call_ensures(shape, (&old(self).rich_text_view(), *old(counter)), (shaped, size)));
        size
    }
}

/// In a well-formed text, the cached runs hold layers one apart, increasing in the
/// order in which the runs were laid out.
pub proof fn lemma_text_layers_increase<P, D, S: Copy>(text: Text<P, D, S>)
    requires
        text.wf(),
    ensures
        forall|i: int, j: int|
            0 <= i < j < text.runs_view().len() ==> (#[trigger] text.runs_view()[i]).layer_view()
                < (#[trigger] text.runs_view()[j]).layer_view(),
        forall|i: int|
            0 < i < text.runs_view().len() ==> (#[trigger] text.runs_view()[i]).layer_view()
                == text.runs_view()[i - 1].layer_view() + 1,
{
    lemma_layers_increase(text.cache@, text.first_layer@);
}

/// Laying out twice with nothing changed in between shapes at most once: the
/// second call returns the size that the first one returned, and changes neither
/// the widget nor the layer counter.
pub proof fn lemma_layout_twice<P, D, S: Copy>(
    first: Text<P, D, S>,
    second: Text<P, D, S>,
    counter_first: LayerCounter,
    counter_second: LayerCounter,
    r_first: S,
    r_second: S,
)
    requires
        first.layout_result() == Some(r_first),
        Text::reuses_layout(first, second, counter_first, counter_second, r_second),
    ensures
        r_second == r_first,
        second == first,
        counter_second == counter_first,
{
}

} // verus!
