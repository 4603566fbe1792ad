use crate::canvas::Canvas;
use crate::canvas::Color;
use crate::canvas::FITTED_ALPHA;
use crate::canvas::lemma_colors_at_len;
use crate::canvas::lemma_painted_nothing;
use crate::canvas::painted;
use crate::canvas::squared_error_sum;
use crate::scale::Ratio;
use crate::scale::spec_scaled_length;
use crate::shape::Shape;
use crate::shape::ShapeError;
use crate::shape::ShapeType;
use rand::rngs::StdRng;
use vstd::prelude::*;

verus! {

/// How far outside the canvas the points of a freshly generated shape may
/// fall.
pub const BORDER_EXTENSION: i32 = 6;

/// The pixels of a `width` by `height` canvas of the colour `background`
/// after `shapes` were painted over it, the first one first.
pub open spec fn rendered(background: Color, width: int, height: int, shapes: Seq<Shape>) -> Seq<
    Color,
>
    decreases shapes.len(),
{
    if shapes.len() == 0 {
        Seq::new((width * height) as nat, |i: int| background)
    } else {
        painted(
            rendered(background, width, height, shapes.drop_last()),
            width,
            height,
            shapes.last().spec_pixels(),
            shapes.last().spec_color(),
        )
    }
}

/// The best score after each of `trials` was held against the best before
/// it, starting from `initial`: a trial takes the place of the best only when
/// it is strictly smaller.
pub open spec fn best_after(initial: int, trials: Seq<int>) -> int
    decreases trials.len(),
{
    if trials.len() == 0 {
        initial
    } else {
        let before = best_after(initial, trials.drop_last());
        if trials.last() < before {
            trials.last()
        } else {
            before
        }
    }
}

/// Over one search the best score never rises: after more trials it is at
/// most what it was after fewer.
pub proof fn lemma_best_score_never_rises(initial: int, trials: Seq<int>, i: int, j: int)
    requires
        0 <= i <= j <= trials.len(),
    ensures
        best_after(initial, trials.take(j)) <= best_after(initial, trials.take(i)),
    decreases j - i,
{
    if i < j {
        lemma_best_score_never_rises(initial, trials, i, j - 1);
        assert(trials.take(j).drop_last() == trials.take(j - 1));
    }
}

/// What a climb was after some trials does not depend on the trials that
/// came after them.
pub proof fn lemma_climb_keeps_its_past(
    image: PrimitiveImage,
    first: Shape,
    tried: Seq<Shape>,
    trial: Shape,
    count: int,
)
    requires
        count <= tried.len(),
    ensures
        image.spec_climb_at(first, tried.push(trial), count) == image.spec_climb_at(
            first,
            tried,
            count,
        ),
    decreases count,
{
    if count > 0 {
        lemma_climb_keeps_its_past(image, first, tried, trial, count - 1);
        assert(tried.push(trial)[count - 1] == tried[count - 1]);
    }
}

/// Over one search the best score never rises: after more trials the climb
/// holds a score that is at most what it held after fewer.
pub proof fn lemma_climb_never_rises(
    image: PrimitiveImage,
    first: Shape,
    tried: Seq<Shape>,
    fewer: int,
    more: int,
)
    requires
        0 <= fewer <= more,
    ensures
        image.spec_climb_at(first, tried, more).best_score <= image.spec_climb_at(
            first,
            tried,
            fewer,
        ).best_score,
    decreases more - fewer,
{
    if fewer < more {
        lemma_climb_never_rises(image, first, tried, fewer, more - 1);
    }
}

/// The climb holds the least score of the search: no shape that was tried,
/// and not the shape that the search began with, scored below it; and it
/// holds that score for its best shape, which is one of them.
pub proof fn lemma_climb_holds_the_least(
    image: PrimitiveImage,
    first: Shape,
    tried: Seq<Shape>,
    count: int,
)
    requires
        0 <= count <= tried.len(),
    ensures
        image.spec_climb_at(first, tried, count).best_score <= image.spec_squared_error_with(
            first,
        ) as u128,
        forall|i: int|
            0 <= i < count ==> image.spec_climb_at(first, tried, count).best_score
                <= image.spec_squared_error_with(#[trigger] tried[i]) as u128,
        image.spec_climb_at(first, tried, count).best_score == image.spec_squared_error_with(
            image.spec_climb_at(first, tried, count).best_shape,
        ) as u128,
        image.spec_climb_at(first, tried, count).best_shape == first || exists|i: int|
            0 <= i < count && image.spec_climb_at(first, tried, count).best_shape
                == #[trigger] tried[i],
    decreases count,
{
    if count > 0 {
        lemma_climb_holds_the_least(image, first, tried, count - 1);
        let before = image.spec_climb_at(first, tried, count - 1);
        let after = image.spec_climb_at(first, tried, count);
        if after.best_shape != first {
            if after.best_shape == before.best_shape && before.best_shape != tried[count - 1] {
                let i = choose|i: int| 0 <= i < count - 1 && before.best_shape == #[trigger] tried[i];
                assert(after.best_shape == tried[i]);
            } else {
                assert(after.best_shape == tried[count - 1]);
            }
        }
    }
}

/// A search that has not used up its patience goes on with one more trial,
/// which its climb holds against its best.
pub proof fn lemma_search_goes_on(
    image: PrimitiveImage,
    kind: ShapeType,
    max_age: int,
    first: Shape,
    tried: Seq<Shape>,
    trial: Shape,
)
    requires
        image.spec_search_so_far(kind, max_age, first, tried),
        image.spec_climb_at(first, tried, tried.len() as int).age < max_age,
        image.spec_trial_of(
            trial,
            image.spec_climb_at(first, tried, tried.len() as int).best_shape,
        ),
    ensures
        image.spec_search_so_far(kind, max_age, first, tried.push(trial)),
        image.spec_climb_at(first, tried.push(trial), tried.len() as int + 1) == image.spec_climb_at(
            first,
            tried,
            tried.len() as int,
        ).spec_observe(trial, image.spec_squared_error_with(trial) as u128),
{
    let longer = tried.push(trial);
    lemma_climb_keeps_its_past(image, first, tried, trial, tried.len() as int);
    assert(longer[tried.len() as int] == trial);
    assert forall|i: int| 0 <= i < longer.len() implies image.spec_trial_of(
        #[trigger] longer[i],
        image.spec_climb_at(first, longer, i).best_shape,
    ) && image.spec_climb_at(first, longer, i).age < max_age by {
        lemma_climb_keeps_its_past(image, first, tried, trial, i);
        if i < tried.len() {
            assert(longer[i] == tried[i]);
        }
    }
}

/// The state of one hill climb: the best shape found so far, its score, and
/// the number of trials in a row that did not improve on it.
#[derive(Debug, Copy, Clone)]
pub struct Climb {
    pub best_shape: Shape,
    pub best_score: u128,
    pub age: u32,
}

impl Climb {
    /// The climb that starts from `shape`, scored `score`.
    pub fn start(shape: Shape, score: u128) -> (climb: Climb)
        ensures
            climb == (Climb { best_shape: shape, best_score: score, age: 0 }),
    {
        Climb { best_shape: shape, best_score: score, age: 0 }
    }

    /// The climb after the trial `shape`, scored `score`, was held against
    /// it. A strictly smaller score makes the trial the best and sets the
    /// age back to zero; any other leaves the best and adds one to the age,
    /// which stays where it is once it has reached the end of its range.
    pub open spec fn spec_observe(self, shape: Shape, score: u128) -> Climb {
        if score < self.best_score {
            Climb { best_shape: shape, best_score: score, age: 0 }
        } else if self.age < u32::MAX {
            Climb { age: (self.age + 1) as u32, ..self }
        } else {
            self
        }
    }

    /// Holds a trial against the best so far and tells whether it took its
    /// place. The best score never rises.
    pub fn observe(&mut self, shape: Shape, score: u128) -> (improved: bool)
        ensures
            improved == (score < old(self).best_score),
            *final(self) == old(self).spec_observe(shape, score),
            final(self).best_score <= old(self).best_score,
            final(self).best_score == best_after(old(self).best_score as int, seq![score as int]),
    {
        assert(seq![score as int].drop_last() =~= Seq::<int>::empty());
        assert(best_after(old(self).best_score as int, Seq::<int>::empty()) == old(
            self,
        ).best_score);
        if score < self.best_score {
            self.best_shape = shape;
            self.best_score = score;
            self.age = 0;
            true
        } else {
            if self.age < u32::MAX {
                self.age = self.age + 1;
            }
            false
        }
    }
}

/// One fitting session: the target, the approximation painted so far, the
/// background it started from, and the shapes that were accepted, in the
/// order in which they were painted.
#[derive(Debug)]
pub struct PrimitiveImage {
    target: Canvas,
    approximation: Canvas,
    shapes: Vec<Shape>,
    background: Color,
    scale: Ratio,
}

impl PrimitiveImage {
    pub closed spec fn spec_target(&self) -> Canvas {
        self.target
    }

    pub closed spec fn spec_approximation(&self) -> Canvas {
        self.approximation
    }

    pub closed spec fn spec_shapes(&self) -> Seq<Shape> {
        self.shapes@
    }

    pub closed spec fn spec_background(&self) -> Color {
        self.background
    }

    /// The ratio of the working resolution to the resolution of the image
    /// that the session was made from.
    pub closed spec fn spec_scale(&self) -> Ratio {
        self.scale
    }

    pub open spec fn spec_width(&self) -> int {
        self.spec_target().spec_width() as int
    }

    pub open spec fn spec_height(&self) -> int {
        self.spec_target().spec_height() as int
    }

    /// The invariant of a session: the approximation has the size of the
    /// target, and it is the background with the accepted shapes painted
    /// over it in the order of their acceptance.
    pub open spec fn wf(&self) -> bool {
        &&& self.spec_scale().wf()
        &&& self.spec_approximation().same_size(&self.spec_target())
        &&& self.spec_target()@.len() == self.spec_width() * self.spec_height()
        &&& self.spec_approximation()@ == rendered(
            self.spec_background(),
            self.spec_width(),
            self.spec_height(),
            self.spec_shapes(),
        )
    }

    /// The sum of squared channel differences between the target and the
    /// approximation: the session's score up to a monotone rescaling.
    pub open spec fn spec_squared_error(&self) -> int {
        squared_error_sum(self.spec_target()@, self.spec_approximation()@)
    }

    /// What the score of the session would be with `shape` painted over the
    /// approximation.
    pub open spec fn spec_squared_error_with(&self, shape: Shape) -> int {
        squared_error_sum(
            self.spec_target()@,
            painted(
                self.spec_approximation()@,
                self.spec_width(),
                self.spec_height(),
                shape.spec_pixels(),
                shape.spec_color(),
            ),
        )
    }

    /// Whether `first` is a shape that a search for the family `kind` can
    /// begin with: a mutation of a shape that generation starts from,
    /// coloured from the target.
    #[verifier::opaque]
    pub open spec fn spec_first_of(&self, first: Shape, kind: ShapeType) -> bool {
        &&& first.spec_kind() == kind
        &&& first.spec_is_valid(self.spec_width(), self.spec_height())
        &&& first.spec_fitted_to(self.spec_target())
        &&& exists|fresh: Shape, mutated: Shape|
            fresh.spec_fresh(self.spec_width(), self.spec_height(), BORDER_EXTENSION as int)
                && #[trigger] mutated.spec_mutated_from(
                fresh,
                self.spec_width(),
                self.spec_height(),
            ) && first == mutated.spec_with_color(first.spec_color())
    }

    /// Whether `trial` is a shape that a search can try when `best` is its
    /// best: a mutation of `best`, coloured from the target.
    #[verifier::opaque]
    pub open spec fn spec_trial_of(&self, trial: Shape, best: Shape) -> bool {
        &&& trial.spec_is_valid(self.spec_width(), self.spec_height())
        &&& trial.spec_fitted_to(self.spec_target())
        &&& exists|mutated: Shape|
            #[trigger] mutated.spec_mutated_from(best, self.spec_width(), self.spec_height())
                && trial == mutated.spec_with_color(trial.spec_color())
    }

    /// The climb of a search that began with `first`, after the first
    /// `count` of the shapes `tried` were tried one after the other, each
    /// scored as it would be on the approximation of this session.
    pub open spec fn spec_climb_at(&self, first: Shape, tried: Seq<Shape>, count: int) -> Climb
        decreases count,
    {
        if count <= 0 {
            Climb {
                best_shape: first,
                best_score: self.spec_squared_error_with(first) as u128,
                age: 0,
            }
        } else {
            self.spec_climb_at(first, tried, count - 1).spec_observe(
                tried[count - 1],
                self.spec_squared_error_with(tried[count - 1]) as u128,
            )
        }
    }

    /// Whether a search for a shape of the family `kind` with the patience
    /// `max_age` can have begun with `first` and then tried the shapes
    /// `tried`: every trial was made of the best shape before it, and before
    /// every trial the age of the climb was below `max_age`.
    pub open spec fn spec_search_so_far(
        &self,
        kind: ShapeType,
        max_age: int,
        first: Shape,
        tried: Seq<Shape>,
    ) -> bool {
        &&& self.spec_first_of(first, kind)
        &&& forall|i: int|
            0 <= i < tried.len() ==> self.spec_trial_of(
                #[trigger] tried[i],
                self.spec_climb_at(first, tried, i).best_shape,
            ) && self.spec_climb_at(first, tried, i).age < max_age
    }

    /// Whether a search for a shape of the family `kind` with the patience
    /// `max_age` can end with `shape` as its best, having begun with `first`
    /// and then tried the shapes `tried`: the search went on for as long as
    /// the age of its climb was below `max_age` and ended when it was not,
    /// and `shape` is the best of the climb.
    pub open spec fn spec_search_end(
        &self,
        shape: Shape,
        kind: ShapeType,
        max_age: int,
        first: Shape,
        tried: Seq<Shape>,
    ) -> bool {
        &&& self.spec_search_so_far(kind, max_age, first, tried)
        &&& self.spec_climb_at(first, tried, tried.len() as int).age >= max_age
        &&& shape == self.spec_climb_at(first, tried, tried.len() as int).best_shape
        &&& shape.spec_kind() == kind
        &&& shape.spec_is_valid(self.spec_width(), self.spec_height())
        &&& shape.spec_fitted_to(self.spec_target())
    }

    /// Whether a search on this session can give up at `start`: the shape is
    /// one that generation starts from, or it is a best shape of the search,
    /// valid and coloured from the target; and its mutation can give up.
    pub open spec fn spec_gave_up_at(&self, start: Shape) -> bool {
        &&& start.spec_fresh(self.spec_width(), self.spec_height(), BORDER_EXTENSION as int) || (
        start.spec_is_valid(self.spec_width(), self.spec_height()) && start.spec_fitted_to(
            self.spec_target(),
        ))
        &&& start.spec_exhausted(self.spec_width(), self.spec_height())
    }

    /// The session after `shape` was accepted: the shape is added to the
    /// end of the list and painted over the approximation.
    pub open spec fn spec_accepted(&self, before: &PrimitiveImage, shape: Shape) -> bool {
        &&& self.spec_target() == before.spec_target()
        &&& self.spec_background() == before.spec_background()
        &&& self.spec_scale() == before.spec_scale()
        &&& self.spec_shapes() == before.spec_shapes().push(shape)
        &&& self.spec_approximation().same_size(&before.spec_approximation())
        &&& self.spec_approximation()@ == painted(
            before.spec_approximation()@,
            before.spec_width(),
            before.spec_height(),
            shape.spec_pixels(),
            shape.spec_color(),
        )
    }

    /// A session without shapes on a target that has the resolution of the
    /// image it was made from: the approximation is all `background`.
    pub fn new(target: Canvas, background: Color) -> (image: PrimitiveImage)
        ensures
            image.wf(),
            image.spec_target() == target,
            image.spec_background() == background,
            image.spec_shapes() == Seq::<Shape>::empty(),
            image.spec_scale() == (Ratio { numerator: 1, denominator: 1 }),
    {
        Self::with_scale(target, background, Ratio::one())
    }

    /// A session without shapes on a target that was brought to the working
    /// resolution by the factor `scale`: the approximation is all
    /// `background`.
    pub fn with_scale(target: Canvas, background: Color, scale: Ratio) -> (image: PrimitiveImage)
        requires
            scale.wf(),
        ensures
            image.wf(),
            image.spec_target() == target,
            image.spec_background() == background,
            image.spec_shapes() == Seq::<Shape>::empty(),
            image.spec_scale() == scale,
    {
        let approximation = target.blank_like(background);
        PrimitiveImage { target, approximation, shapes: Vec::new(), background, scale }
    }

    pub fn target(&self) -> (target: &Canvas)
        ensures
            *target == self.spec_target(),
    {
        &self.target
    }

    pub fn approximation(&self) -> (approximation: &Canvas)
        ensures
            *approximation == self.spec_approximation(),
    {
        &self.approximation
    }

    /// The accepted shapes, in the order of their acceptance.
    pub fn shapes(&self) -> (shapes: &Vec<Shape>)
        ensures
            shapes@ == self.spec_shapes(),
    {
        &self.shapes
    }

    pub fn background(&self) -> (background: Color)
        ensures
            background == self.spec_background(),
    {
        self.background
    }

    pub fn scale(&self) -> (scale: Ratio)
        ensures
            scale == self.spec_scale(),
    {
        self.scale
    }

    /// The size at which results are put out: the working size times the
    /// inverse of the scale, rounded down.
    pub open spec fn spec_original_size(&self) -> (int, int) {
        (
            spec_scaled_length(
                self.spec_width(),
                self.spec_scale().denominator as int,
                self.spec_scale().numerator as int,
            ),
            spec_scaled_length(
                self.spec_height(),
                self.spec_scale().denominator as int,
                self.spec_scale().numerator as int,
            ),
        )
    }

    pub fn original_size(&self) -> (size: (u32, u32))
        requires
            self.wf(),
        ensures
            (size.0 as int, size.1 as int) == self.spec_original_size(),
    {
        let back = self.scale.inverse();
        (back.scale_length(self.target.width()), back.scale_length(self.target.height()))
    }

    /// The accepted shapes, each scaled by the inverse of the scale.
    pub open spec fn spec_original_shapes(&self) -> Seq<Shape> {
        Seq::new(
            self.spec_shapes().len(),
            |i: int|
                self.spec_shapes()[i].spec_scaled(
                    Ratio {
                        numerator: self.spec_scale().denominator,
                        denominator: self.spec_scale().numerator,
                    },
                ),
        )
    }

    /// The result at the resolution of the image that the session was made
    /// from: a canvas of that size in the background colour with every
    /// accepted shape, scaled back, painted over it in the order of
    /// acceptance. There is none when a canvas of that size cannot be
    /// addressed.
    pub fn render_at_original_size(&self) -> (out: Option<Canvas>)
        requires
            self.wf(),
        ensures
            out is Some <==> self.spec_original_size().0 * self.spec_original_size().1
                <= usize::MAX,
            out matches Some(canvas) ==> {
                &&& canvas.spec_width() == self.spec_original_size().0
                &&& canvas.spec_height() == self.spec_original_size().1
                &&& canvas@ == rendered(
                    self.spec_background(),
                    self.spec_original_size().0,
                    self.spec_original_size().1,
                    self.spec_original_shapes(),
                )
            },
    {
        let (width, height) = self.original_size();
        assert(width * height <= 0xffff_ffff * 0xffff_ffff) by (nonlinear_arith)
            requires
                0 <= width <= 0xffff_ffff,
                0 <= height <= 0xffff_ffff,
        ;
        if width as u64 * height as u64 > usize::MAX as u64 {
            return None;
        }
        let back = self.scale.inverse();
        let ghost all = self.spec_original_shapes();
        let mut canvas = Canvas::from_pixel(width, height, self.background);
        let mut i: usize = 0;
        while i < self.shapes.len()
            invariant
                i <= self.shapes.len(),
                back.wf(),
                back == (Ratio {
                    numerator: self.spec_scale().denominator,
                    denominator: self.spec_scale().numerator,
                }),
                all == self.spec_original_shapes(),
                canvas.spec_width() == width,
                canvas.spec_height() == height,
                canvas@ == rendered(self.background, width as int, height as int, all.take(i as int)),
            decreases self.shapes.len() - i,
        {
            proof {
                assert(all.take(i + 1).drop_last() == all.take(i as int));
                assert(all.take(i + 1).last() == self.shapes@[i as int].spec_scaled(back));
            }
            canvas = self.shapes[i].scaled_paint_on(&canvas, &back);
            i += 1;
        }
        assert(all.take(all.len() as int) == all);
        Some(canvas)
    }

    pub fn width(&self) -> (w: u32)
        ensures
            w == self.spec_width(),
    {
        self.target.width()
    }

    pub fn height(&self) -> (h: u32)
        ensures
            h == self.spec_height(),
    {
        self.target.height()
    }

    /// The mean colour that the target has under `shape`.
    pub fn target_average_color_in_shape(&self, shape: &Shape) -> (color: Color)
        ensures
            color == crate::canvas::mean_color(
                crate::canvas::colors_at(
                    self.spec_target()@,
                    self.spec_width(),
                    self.spec_height(),
                    shape.spec_pixels(),
                ),
            ),
    {
        let pixels = shape.get_pixels();
        self.target.average_color_at(&pixels)
    }

    /// The session's score without its square root and its division by the
    /// number of channels: lower is better, zero is a perfect match.
    pub fn squared_error(&self) -> (e: u128)
        requires
            self.wf(),
        ensures
            e == self.spec_squared_error(),
    {
        self.target.squared_error(&self.approximation)
    }

    /// The score that the session would have with `shape` painted over the
    /// approximation. The session itself is not touched.
    pub fn squared_error_with(&self, shape: &Shape) -> (e: u128)
        requires
            self.wf(),
        ensures
            e == self.spec_squared_error_with(*shape),
    {
        let trial = shape.paint_on(&self.approximation);
        self.target.squared_error(&trial)
    }

    /// Accepts `shape` if painting it improves the score strictly, and tells
    /// whether it did. A shape that does not improve the score leaves the
    /// session exactly as it was.
    pub fn accept_if_better(&mut self, shape: Shape) -> (accepted: bool)
        requires
            old(self).wf(),
        ensures
            final(self).wf(),
            accepted == (old(self).spec_squared_error_with(shape) < old(self).spec_squared_error()),
            accepted ==> final(self).spec_accepted(old(self), shape),
            accepted ==> final(self).spec_squared_error() < old(self).spec_squared_error(),
            !accepted ==> *final(self) == *old(self),
    {
        let trial = shape.paint_on(&self.approximation);
        let trial_score: u128 = self.target.squared_error(&trial);
        let current: u128 = self.target.squared_error(&self.approximation);
        if trial_score < current {
            proof {
                assert(self.shapes@.push(shape).drop_last() == self.shapes@);
            }
            self.approximation = trial;
            self.shapes.push(shape);
            true
        } else {
            false
        }
    }

    /// Fits one shape of the given family by hill climbing, and accepts it
    /// if it improves the approximation.
    ///
    /// A random shape is generated, coloured from the target and scored on a
    /// copy of the approximation; it is the first best. Then the shape is
    /// mutated, recoloured and scored again and again, each trial on a fresh
    /// copy of the approximation: a strictly better trial becomes the best,
    /// any other is thrown away and the search goes on from the best. After
    /// `max_age` trials in a row without improvement the best shape is
    /// accepted if it beats the session's score, as `accept_if_better` says.
    ///
    /// `Ok(true)` tells that a valid shape of the family was accepted,
    /// `Ok(false)` that the best shape found improved nothing, and an error
    /// that no valid shape could be generated or mutated; in both of the
    /// latter cases the session is exactly as it was.
    pub fn add_new_shape<N: Fn(&mut StdRng) -> i32>(
        &mut self,
        max_age: u32,
        shape_type: &ShapeType,
        rng: &mut StdRng,
        noise: &N,
    ) -> (res: Result<bool, ShapeError>)
        requires
            old(self).wf(),
            shape_type.spec_supported_on(
                old(self).spec_width(),
                old(self).spec_height(),
                BORDER_EXTENSION as int,
            ),
            forall|g: &mut StdRng| call_requires(noise, (g,)),
        ensures
            final(self).wf(),
            res matches Ok(accepted) ==> exists|shape: Shape, first: Shape, tried: Seq<Shape>|
                {
                    &&& #[trigger] old(self).spec_search_end(
                        shape,
                        *shape_type,
                        max_age as int,
                        first,
                        tried,
                    )
                    &&& accepted == (old(self).spec_squared_error_with(shape) < old(
                        self,
                    ).spec_squared_error())
                    &&& accepted ==> final(self).spec_accepted(old(self), shape)
                        && shape.spec_color().a == FITTED_ALPHA
                },
            res is Err ==> exists|start: Shape|
                start.spec_kind() == *shape_type && #[trigger] old(self).spec_gave_up_at(start),
            res matches Ok(true) ==> exists|shape: Shape|
                {
                    &&& #[trigger] final(self).spec_accepted(old(self), shape)
                    &&& shape.spec_kind() == *shape_type
                    &&& shape.spec_is_valid(old(self).spec_width(), old(self).spec_height())
                    &&& shape.spec_fitted_to(old(self).spec_target())
                    &&& shape.spec_color().a == FITTED_ALPHA
                    &&& old(self).spec_squared_error_with(shape) < old(self).spec_squared_error()
                },
            res matches Ok(true) ==> final(self).spec_squared_error() < old(
                self,
            ).spec_squared_error(),
            !(res matches Ok(true)) ==> *final(self) == *old(self),
            *shape_type == ShapeType::Rectangle || *shape_type == ShapeType::CubicBezier
                ==> res is Ok,
    {
        let width: u32 = self.width();
        let height: u32 = self.height();
        let mut shape = match Shape::random(*shape_type, width, height, BORDER_EXTENSION, rng, noise) {
            Ok(shape) => shape,
            Err(e) => {
                proof {
                    let fresh = choose|fresh: Shape|
                        fresh.spec_kind() == *shape_type && fresh.spec_fresh(
                            width as int,
                            height as int,
                            BORDER_EXTENSION as int,
                        ) && #[trigger] fresh.spec_exhausted(width as int, height as int);
                    assert(fresh.spec_kind() == *shape_type && self.spec_gave_up_at(fresh));
                }
                return Err(e);
            },
        };
        let ghost generated = shape;
        shape.set_color_using(self);
        let ghost first = shape;
        proof {
            let made: Result<Shape, ShapeError> = Ok(generated);
            let fresh = choose|fresh: Shape|
                fresh.spec_fresh(width as int, height as int, BORDER_EXTENSION as int)
                    && #[trigger] (made->Ok_0).spec_mutated_from(
                    fresh,
                    width as int,
                    height as int,
                );
            assert(self.spec_first_of(first, *shape_type)) by {
                reveal(PrimitiveImage::spec_first_of);
                assert(fresh.spec_fresh(width as int, height as int, BORDER_EXTENSION as int)
                    && generated.spec_mutated_from(fresh, width as int, height as int) && first
                    == generated.spec_with_color(first.spec_color()));
            }
        }
        let first_score: u128 = self.squared_error_with(&shape);
        let mut climb = Climb::start(shape, first_score);
        let ghost tried: Seq<Shape> = Seq::empty();
        while climb.age < max_age
            invariant
                *self == *old(self),
                self.wf(),
                width == self.spec_width(),
                height == self.spec_height(),
                forall|g: &mut StdRng| call_requires(noise, (g,)),
                self.spec_search_so_far(*shape_type, max_age as int, first, tried),
                climb == self.spec_climb_at(first, tried, tried.len() as int),
                shape == climb.best_shape,
                climb.best_shape.spec_kind() == *shape_type,
                climb.best_shape.spec_is_valid(width as int, height as int),
                climb.best_shape.spec_fitted_to(self.spec_target()),
                climb.best_score == self.spec_squared_error_with(climb.best_shape),
            decreases climb.best_score, max_age - climb.age,
        {
            let ghost start = shape;
            match shape.mutate(width, height, rng, noise) {
                Ok(()) => {},
                Err(e) => {
                    proof {
                        assert(start.spec_kind() == *shape_type && self.spec_gave_up_at(start));
                    }
                    return Err(e);
                },
            }
            let ghost mutated = shape;
            shape.set_color_using(self);
            let trial_score: u128 = self.squared_error_with(&shape);
            proof {
                assert(self.spec_trial_of(shape, climb.best_shape)) by {
                    reveal(PrimitiveImage::spec_trial_of);
                    assert(mutated.spec_mutated_from(start, width as int, height as int) && shape
                        == mutated.spec_with_color(shape.spec_color()));
                }
                lemma_search_goes_on(*self, *shape_type, max_age as int, first, tried, shape);
                tried = tried.push(shape);
            }
            if !climb.observe(shape, trial_score) {
                shape = climb.best_shape;
            }
        }
        let best = climb.best_shape;
        proof {
            let under_target = crate::canvas::colors_at(
                self.spec_target()@,
                width as int,
                height as int,
                best.spec_pixels(),
            );
            if under_target.len() == 0 {
                lemma_colors_at_len(
                    self.spec_target()@,
                    self.spec_approximation()@,
                    width as int,
                    height as int,
                    best.spec_pixels(),
                );
                lemma_painted_nothing(
                    self.spec_approximation()@,
                    width as int,
                    height as int,
                    best.spec_pixels(),
                    best.spec_color(),
                );
            }
        }
        let accepted = self.accept_if_better(best);
        proof {
            assert(old(self).spec_search_end(best, *shape_type, max_age as int, first, tried));
        }
        Ok(accepted)
    }
}

} // verus!
