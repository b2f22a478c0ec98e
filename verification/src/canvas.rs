//! The canvas: an ordered list of layers over a pixel surface.
//!
//! A layer is a drawable with an active flag and a group tag. Layers are
//! drawn in list order, later ones on top. A group is the set of layers that
//! carry one tag; groups are switched, moved, dropped and taken out as a
//! whole.

use vstd::prelude::*;
use vstd::string::*;
use crate::color::Color;
use crate::fb::{filled_rect, lemma_same_surface_trans, Grid, Surface, FB};
use crate::shapes::{Draw, Drawable};

verus! {

/// A drawable on a canvas, with its active flag and group tag.
pub struct Layer<T> {
    pub item: Box<T>,
    pub active: bool,
    pub group: String,
}

impl<T> Layer<T> {
    /// A layer for `item` in the group `group`.
    pub fn new(item: T, active: bool, group: String) -> (l: Layer<T>)
        ensures
            l == (Layer { item: Box::new(item), active, group }),
    {
        Layer { item: Box::new(item), active, group }
    }
}

/// Whether a layer carries the tag `tag`.
pub open spec fn in_group<T>(l: Layer<T>, tag: Seq<char>) -> bool {
    l.group@ == tag
}

/// The layers with the active flag of each layer of the group `tag` set to
/// `value`.
pub open spec fn with_group_active<T>(layers: Seq<Layer<T>>, tag: Seq<char>, value: bool) -> Seq<
    Layer<T>,
> {
    Seq::new(
        layers.len(),
        |i: int|
            if in_group(layers[i], tag) {
                Layer { active: value, ..layers[i] }
            } else {
                layers[i]
            },
    )
}

/// The test for the layers of the group `tag`.
pub open spec fn group_is<T>(tag: Seq<char>) -> spec_fn(Layer<T>) -> bool {
    |l: Layer<T>| in_group(l, tag)
}

/// The test for the layers that are not of the group `tag`.
pub open spec fn group_is_not<T>(tag: Seq<char>) -> spec_fn(Layer<T>) -> bool {
    |l: Layer<T>| !in_group(l, tag)
}

/// The layers of the group `tag`, in their order.
pub open spec fn only_group<T>(layers: Seq<Layer<T>>, tag: Seq<char>) -> Seq<Layer<T>> {
    layers.filter(group_is(tag))
}

/// The layers that are not of the group `tag`, in their order.
pub open spec fn without_group<T>(layers: Seq<Layer<T>>, tag: Seq<char>) -> Seq<Layer<T>> {
    layers.filter(group_is_not(tag))
}

/// Whether each layer of the group `tag` can be moved by `(x, y)` without
/// leaving the range of positions.
pub open spec fn group_can_slide(layers: Seq<Layer<Drawable>>, tag: Seq<char>, x: int, y: int) -> bool {
    forall|i: int|
        0 <= i < layers.len() && in_group(#[trigger] layers[i], tag) ==> {
            &&& i32::MIN <= layers[i].item.bounds().0 + x <= i32::MAX
            &&& i32::MIN <= layers[i].item.bounds().1 + y <= i32::MAX
        }
}

/// The layers with each layer of the group `tag` moved by `(x, y)`.
pub open spec fn with_group_slid(layers: Seq<Layer<Drawable>>, tag: Seq<char>, x: int, y: int) -> Seq<
    Layer<Drawable>,
> {
    Seq::new(
        layers.len(),
        |i: int|
            if in_group(layers[i], tag) {
                Layer {
                    item: Box::new(
                        layers[i].item.moved_to(
                            layers[i].item.bounds().0 + x,
                            layers[i].item.bounds().1 + y,
                        ),
                    ),
                    ..layers[i]
                }
            } else {
                layers[i]
            },
    )
}

/// Whether each active layer can be drawn on a surface of `sw` by `sh`
/// pixels.
pub open spec fn all_can_draw(layers: Seq<Layer<Drawable>>, sw: int, sh: int) -> bool {
    forall|i: int|
        0 <= i < layers.len() && (#[trigger] layers[i]).active ==> layers[i].item.can_draw(sw, sh)
}

/// `g` after the active ones of the first `n` layers were drawn on it, in
/// list order.
pub open spec fn rendered(layers: Seq<Layer<Drawable>>, g: Grid, n: nat) -> Grid
    decreases n,
{
    if n == 0 {
        g
    } else {
        let below = rendered(layers, g, (n - 1) as nat);
        if layers[n - 1].active {
            layers[n - 1].item.drawn(below)
        } else {
            below
        }
    }
}

/// The surface's pixels after `clear`: the background, opaque, filled in as
/// far as 240 by 240 pixels from the top left.
pub open spec fn cleared(s: Surface) -> Grid {
    filled_rect(s.grid(), 0, 0, 240, 240, Color { a: 255, ..s.background })
}

/// A single layer is kept or not by its tag.
proof fn lemma_filter_one<T>(l: Layer<T>, pred: spec_fn(Layer<T>) -> bool)
    ensures
        seq![l].filter(pred) == if pred(l) {
            seq![l]
        } else {
            Seq::<Layer<T>>::empty()
        },
{
    reveal(Seq::filter);
    let s = seq![l];
    assert(s.drop_last().filter(pred) =~= Seq::<Layer<T>>::empty());
}

/// Filtering from some layer on is filtering that layer and then the rest.
proof fn lemma_filter_from<T>(layers: Seq<Layer<T>>, i: int, pred: spec_fn(Layer<T>) -> bool)
    requires
        0 <= i < layers.len(),
    ensures
        layers.subrange(i, layers.len() as int).filter(pred) == if pred(layers[i]) {
            seq![layers[i]] + layers.subrange(i + 1, layers.len() as int).filter(pred)
        } else {
            layers.subrange(i + 1, layers.len() as int).filter(pred)
        },
{
    let tail = layers.subrange(i, layers.len() as int);
    let rest = layers.subrange(i + 1, layers.len() as int);
    assert(tail =~= seq![layers[i]] + rest);
    Seq::filter_distributes_over_add(seq![layers[i]], rest, pred);
    lemma_filter_one(layers[i], pred);
}

/// Each layer is either of a group or not: the two parts of a list have its
/// length together.
pub proof fn lemma_group_split_len<T>(layers: Seq<Layer<T>>, tag: Seq<char>)
    ensures
        only_group(layers, tag).len() + without_group(layers, tag).len() == layers.len(),
    decreases layers.len(),
{
    reveal(Seq::filter);
    if layers.len() > 0 {
        lemma_group_split_len(layers.drop_last(), tag);
    }
}

/// Once a group was dropped there is no layer of it left, so activating it
/// changes nothing and leaves no layer of it active.
pub proof fn lemma_drop_then_activate<T>(layers: Seq<Layer<T>>, tag: Seq<char>)
    ensures
        with_group_active(without_group(layers, tag), tag, true) == without_group(layers, tag),
        forall|i: int|
            0 <= i < without_group(layers, tag).len() ==> !in_group(
                #[trigger] without_group(layers, tag)[i],
                tag,
            ),
        forall|i: int|
            0 <= i < with_group_active(without_group(layers, tag), tag, true).len() ==> !(in_group(
                #[trigger] with_group_active(without_group(layers, tag), tag, true)[i],
                tag,
            ) && with_group_active(without_group(layers, tag), tag, true)[i].active),
{
    let pred = group_is_not::<T>(tag);
    let rest = without_group(layers, tag);
    assert forall|i: int| 0 <= i < rest.len() implies !in_group(#[trigger] rest[i], tag) by {
        layers.lemma_filter_pred(pred, i);
    }
}

/// Taking a group out and appending it again keeps every layer: the list is
/// as long as before, the group's layers stand at its end in the order they
/// had, and the other layers stand before them in the order they had.
pub proof fn lemma_extract_then_append<T>(layers: Seq<Layer<T>>, tag: Seq<char>)
    ensures
        ({
            let after = without_group(layers, tag) + only_group(layers, tag);
            &&& after.len() == layers.len()
            &&& after.subrange(without_group(layers, tag).len() as int, after.len() as int)
                == only_group(layers, tag)
            &&& after.subrange(0, without_group(layers, tag).len() as int) == without_group(
                layers,
                tag,
            )
            &&& only_group(after, tag) == only_group(layers, tag)
            &&& without_group(after, tag) == without_group(layers, tag)
        }),
{
    let group = only_group(layers, tag);
    let rest = without_group(layers, tag);
    let is_in = group_is::<T>(tag);
    let is_out = group_is_not::<T>(tag);
    lemma_group_split_len(layers, tag);
    Seq::filter_distributes_over_add(rest, group, is_in);
    Seq::filter_distributes_over_add(rest, group, is_out);
    lemma_filter_of_filtered(layers, is_in, is_out);
    lemma_filter_of_filtered(layers, is_out, is_in);
    lemma_filter_of_filtered(layers, is_in, is_in);
    lemma_filter_of_filtered(layers, is_out, is_out);
}

/// What was kept by one test is kept again by a test that it implies, and
/// nothing of it by a test that it excludes.
proof fn lemma_filter_of_filtered<T>(
    layers: Seq<Layer<T>>,
    first: spec_fn(Layer<T>) -> bool,
    second: spec_fn(Layer<T>) -> bool,
)
    ensures
        (forall|l: Layer<T>| #[trigger] first(l) ==> second(l)) ==> layers.filter(first).filter(
            second,
        ) == layers.filter(first),
        (forall|l: Layer<T>| #[trigger] first(l) ==> !second(l)) ==> layers.filter(first).filter(
            second,
        ) == Seq::<Layer<T>>::empty(),
    decreases layers.len(),
{
    reveal(Seq::filter);
    if layers.len() > 0 {
        lemma_filter_of_filtered(layers.drop_last(), first, second);
        let kept = layers.drop_last().filter(first);
        if first(layers.last()) {
            assert(kept.push(layers.last()).drop_last() =~= kept);
        }
    }
}

/// A surface and the layers that are drawn on it.
pub struct Canvas {
    screen: FB,
    pub layers: Vec<Layer<Drawable>>,
}

/// The mathematical model of a canvas.
pub struct CanvasView {
    /// The surface that the layers are drawn on.
    pub surface: Surface,
    /// The layers, in drawing order.
    pub layers: Seq<Layer<Drawable>>,
}

impl View for Canvas {
    type V = CanvasView;

    closed spec fn view(&self) -> CanvasView {
        CanvasView { surface: self.screen@, layers: self.layers@ }
    }
}

impl Canvas {

    /// A canvas over `screen`, without layers.
    pub fn new(screen: FB) -> (c: Canvas)
        ensures
            c@.surface == screen@,
            c@.layers == Seq::<Layer<Drawable>>::empty(),
    {
        let layers: Vec<Layer<Drawable>> = Vec::new();
        Canvas { screen, layers }
    }

    /// The surface of the canvas.
    pub fn screen(&self) -> (r: &FB)
        ensures
            r@ == self@.surface,
    {
        &self.screen
    }

    /// Whether `render` may be called: whether each active layer can be
    /// drawn on the surface.
    pub fn can_render(&self) -> (r: bool)
        requires
            self@.surface.wf(),
        ensures
            r == all_can_draw(self@.layers, self@.surface.w, self@.surface.h),
    {
        let mut i: usize = 0;
        while i < self.layers.len()
            invariant
                i <= self.layers.len(),
                self@.surface.wf(),
                forall|j: int|
                    0 <= j < i && (#[trigger] self.layers@[j]).active ==> self.layers@[j].item.can_draw(
                        self@.surface.w,
                        self@.surface.h,
                    ),
            decreases self.layers.len() - i,
        {
            if self.layers[i].active && !self.layers[i].item.drawable_on(&self.screen) {
                return false;
            }
            i = i + 1;
        }
        true
    }

    /// Composes a frame: clears the surface, then draws the active layers in
    /// list order. The frame is then ready to be handed to the display.
    pub fn render(&mut self)
        requires
            old(self)@.surface.wf(),
            all_can_draw(old(self)@.layers, old(self)@.surface.w, old(self)@.surface.h),
        ensures
            final(self)@.surface.wf(),
            final(self)@.surface.same_surface(old(self)@.surface),
            final(self)@.surface.grid() == rendered(
                old(self)@.layers,
                cleared(old(self)@.surface),
                old(self)@.layers.len(),
            ),
            final(self)@.layers == old(self)@.layers,
    {
        let ghost before = self.screen@;
        self.screen.clear();
        let ghost blank = self.screen@;
        let mut i: usize = 0;
        while i < self.layers.len()
            invariant
                i <= self.layers.len(),
                self.layers == old(self).layers,
                all_can_draw(self.layers@, before.w, before.h),
                blank.same_surface(before),
                self.screen@.wf(),
                self.screen@.same_surface(before),
                self.screen@.grid() == rendered(self.layers@, blank.grid(), i as nat),
            decreases self.layers.len() - i,
        {
            let ghost s = self.screen@;
            if self.layers[i].active {
                self.layers[i].item.draw(&mut self.screen);
                proof {
                    lemma_same_surface_trans(self.screen@, s, before);
                }
            }
            i = i + 1;
        }
    }

    /// Clears the surface. The layers stay as they are.
    pub fn clear(&mut self)
        requires
            old(self)@.surface.wf(),
        ensures
            final(self)@.surface.wf(),
            final(self)@.surface.same_surface(old(self)@.surface),
            final(self)@.surface.grid() == cleared(old(self)@.surface),
            final(self)@.layers == old(self)@.layers,
    {
        self.screen.clear();
    }

    /// Whether `slide_layer_group` may be called: whether each layer of the
    /// group `group` stays in the range of positions when moved by `(x, y)`.
    pub fn can_slide_layer_group(&self, group: &'static str, x: i32, y: i32) -> (r: bool)
        ensures
            r == group_can_slide(self@.layers, group@, x as int, y as int),
    {
        let tag: String = String::from_str(group);
        let mut i: usize = 0;
        while i < self.layers.len()
            invariant
                i <= self.layers.len(),
                tag@ == group@,
                forall|j: int|
                    0 <= j < i && in_group(#[trigger] self.layers@[j], group@) ==> {
                        &&& i32::MIN <= self.layers@[j].item.bounds().0 + x <= i32::MAX
                        &&& i32::MIN <= self.layers@[j].item.bounds().1 + y <= i32::MAX
                    },
            decreases self.layers.len() - i,
        {
            if self.layers[i].group == tag {
                let at: (i32, i32) = self.layers[i].item.origin();
                let moved_x: i64 = at.0 as i64 + x as i64;
                let moved_y: i64 = at.1 as i64 + y as i64;
                if moved_x < i32::MIN as i64 || moved_x > i32::MAX as i64 || moved_y
                    < i32::MIN as i64 || moved_y > i32::MAX as i64 {
                    return false;
                }
            }
            i = i + 1;
        }
        true
    }

    /// Moves each layer of the group `group` by `(x, y)`.
    pub fn slide_layer_group(&mut self, group: &'static str, x: i32, y: i32)
        requires
            group_can_slide(old(self)@.layers, group@, x as int, y as int),
        ensures
            final(self)@.layers == with_group_slid(old(self)@.layers, group@, x as int, y as int),
            final(self)@.surface == old(self)@.surface,
    {
        let tag: String = String::from_str(group);
        let mut i: usize = 0;
        while i < self.layers.len()
            invariant
                i <= self.layers.len(),
                tag@ == group@,
                self.layers@.len() == old(self)@.layers.len(),
                self.screen == old(self).screen,
                forall|j: int|
                    0 <= j < i ==> self.layers@[j] == with_group_slid(
                        old(self)@.layers,
                        group@,
                        x as int,
                        y as int,
                    )[j],
                forall|j: int| i <= j < self.layers@.len() ==> self.layers@[j] == old(self)@.layers[j],
                group_can_slide(old(self)@.layers, group@, x as int, y as int),
            decreases self.layers.len() - i,
        {
            if self.layers[i].group == tag {
                self.layers[i].item.slide(x, y);
            }
            i = i + 1;
        }
    }

    /// Sets each layer of the group `group` active.
    pub fn activate_layer_group(&mut self, group: String)
        ensures
            final(self)@.layers == with_group_active(old(self)@.layers, group@, true),
            final(self)@.surface == old(self)@.surface,
    {
        self.set_group_active(&group, true);
    }

    /// Sets each layer of the group `group` inactive.
    pub fn deactivate_layer_group(&mut self, group: String)
        ensures
            final(self)@.layers == with_group_active(old(self)@.layers, group@, false),
            final(self)@.surface == old(self)@.surface,
    {
        self.set_group_active(&group, false);
    }

    fn set_group_active(&mut self, group: &String, value: bool)
        ensures
            final(self)@.layers == with_group_active(old(self)@.layers, group@, value),
            final(self)@.surface == old(self)@.surface,
    {
        let mut i: usize = 0;
        while i < self.layers.len()
            invariant
                i <= self.layers.len(),
                self.layers@.len() == old(self)@.layers.len(),
                self.screen == old(self).screen,
                forall|j: int|
                    0 <= j < i ==> self.layers@[j] == with_group_active(
                        old(self)@.layers,
                        group@,
                        value,
                    )[j],
                forall|j: int| i <= j < self.layers@.len() ==> self.layers@[j] == old(self)@.layers[j],
            decreases self.layers.len() - i,
        {
            if self.layers[i].group == *group {
                self.layers[i].active = value;
            }
            i = i + 1;
        }
    }

    /// Removes each layer of the group `group`. The other layers keep their
    /// order.
    pub fn drop_layer_group(&mut self, group: String)
        ensures
            final(self)@.layers == without_group(old(self)@.layers, group@),
            final(self)@.surface == old(self)@.surface,
    {
        let _dropped: Vec<Layer<Drawable>> = self.get_layer_group(group);
    }

    /// Takes each layer of the group `group` out of the list and returns
    /// them, in the order they had. The other layers keep their order.
    pub fn get_layer_group(&mut self, group: String) -> (taken: Vec<Layer<Drawable>>)
        ensures
            taken@ == only_group(old(self)@.layers, group@),
            final(self)@.layers == without_group(old(self)@.layers, group@),
            final(self)@.surface == old(self)@.surface,
    {
        let ghost all = self.layers@;
        let ghost is_in = group_is::<Drawable>(group@);
        let ghost is_out = group_is_not::<Drawable>(group@);
        let mut result: Vec<Layer<Drawable>> = Vec::new();
        let mut i: usize = self.layers.len();
        proof {
            reveal(Seq::filter);
        }
        while i > 0
            invariant
                i <= all.len(),
                all == old(self)@.layers,
                self.screen == old(self).screen,
                is_in == group_is::<Drawable>(group@),
                is_out == group_is_not::<Drawable>(group@),
                result@ == all.subrange(i as int, all.len() as int).filter(is_in),
                self.layers@ == all.subrange(0, i as int) + all.subrange(
                    i as int,
                    all.len() as int,
                ).filter(is_out),
            decreases i,
        {
            i = i - 1;
            proof {
                lemma_filter_from(all, i as int, is_in);
                lemma_filter_from(all, i as int, is_out);
            }
            if self.layers[i].group == group {
                let layer: Layer<Drawable> = self.layers.remove(i);
                result.insert(0, layer);
            }
        }
        result
    }

    /// Appends layers to the end of the list, on top of the others, and
    /// leaves `layers` empty.
    pub fn append(&mut self, layers: &mut Vec<Layer<Drawable>>)
        ensures
            final(self)@.layers == old(self)@.layers + old(layers)@,
            final(layers)@ == Seq::<Layer<Drawable>>::empty(),
            final(self)@.surface == old(self)@.surface,
    {
        self.layers.append(layers);
    }
}

} // verus!
