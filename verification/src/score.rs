//! Scoring: which pipe pairs the bird has passed, and the glyphs that show
//! the count.

use crate::decimal::{decimal_digits, digits_of, lemma_at_most_ten_digits};
use crate::scene::{Bounds, Entity, EntityId, Scene, Sprite, Tag, TagSet};
use std::collections::HashSet;
use vstd::prelude::*;

verus! {

/// From the bird's left edge to its centre.
pub const BIRD_HALF_WIDTH: i64 = 25;

/// Width of one score glyph.
pub const DIGIT_WIDTH: u32 = 24;

/// Height of one score glyph.
pub const DIGIT_HEIGHT: u32 = 38;

/// Room between two neighbouring glyphs.
pub const DIGIT_SPACING: u32 = 5;

/// Room between the display and the top and right edges of the field.
pub const DISPLAY_MARGIN: i64 = 20;

/// Glyph slots that are cleared before the score is shown.
pub const DISPLAY_SLOTS: u8 = 10;

/// Where the bird stands relative to one pipe pair.
#[derive(Clone, Copy, Debug, PartialEq, Eq, Structural)]
pub enum Passage {
    /// The bird has not been seen left of the pair.
    Unseen,
    /// The bird was last seen left of the pair.
    LeftOf,
    /// The pair has been counted; this is final.
    Scored,
}

/// What one tick makes of a pair's passage. `sighting` holds the
/// horizontal centres of the bird and of the pair's upper pipe, or nothing
/// when either is not registered. A pair counts on the tick that finds the
/// bird right of its centre after a tick that found it left; a bird that is
/// level with the centre, or was never seen left of it, changes nothing.
pub open spec fn passage_after(before: Passage, sighting: Option<(int, int)>) -> Passage {
    match sighting {
        Some((bird_center, pipe_center)) => {
            if before == Passage::Scored {
                Passage::Scored
            } else if bird_center < pipe_center {
                Passage::LeftOf
            } else if before == Passage::LeftOf && bird_center > pipe_center {
                Passage::Scored
            } else {
                before
            }
        },
        None => before,
    }
}

/// The centres of the bird and of the upper pipe of pair `index`, if both
/// are registered.
pub open spec fn sighting(entities: Map<EntityId, Entity>, index: u32, pipe_width: u32) -> Option<
    (int, int),
> {
    if entities.dom().contains(EntityId::Bird) && entities.dom().contains(
        EntityId::TopPipe(index),
    ) {
        Some(
            (
                entities[EntityId::Bird].position.0 + BIRD_HALF_WIDTH,
                entities[EntityId::TopPipe(index)].position.0 + pipe_width as int / 2,
            ),
        )
    } else {
        None
    }
}

/// A pair is counted at most once: a counted pair stays counted whatever
/// is sighted, and a pair becomes counted only when it was marked as lying
/// ahead and the bird is sighted right of its centre.
pub proof fn law_counted_at_most_once(before: Passage, sighting: Option<(int, int)>)
    ensures
        before == Passage::Scored ==> passage_after(before, sighting) == Passage::Scored,
        before != Passage::Scored && passage_after(before, sighting) == Passage::Scored ==> {
            &&& before == Passage::LeftOf
            &&& sighting matches Some((bird_center, pipe_center))
            &&& bird_center > pipe_center
        },
{
}

/// The passage of a pair whose centre stays at `pipe_center` after the
/// bird's centre was sighted at each of `birds` in turn, one tick each.
pub open spec fn passage_over(start: Passage, birds: Seq<int>, pipe_center: int) -> Passage
    decreases birds.len(),
{
    if birds.len() == 0 {
        start
    } else {
        passage_after(
            passage_over(start, birds.drop_last(), pipe_center),
            Some((birds.last(), pipe_center)),
        )
    }
}

/// Whether one of the first `ticks` sightings found the bird left of the centre.
pub open spec fn seen_left(birds: Seq<int>, pipe_center: int, ticks: int) -> bool {
    exists|tick: int| 0 <= tick < ticks && #[trigger] birds[tick] < pipe_center
}

/// A bird that never moves leftwards scores exactly once as it crosses a
/// pair's centre, on the tick `crossing` that first finds it right of the
/// centre, provided that it was marked as left of the pair at the start or
/// an earlier tick found it left of the centre: the pair is not counted up
/// to that tick, it is marked as lying ahead just before it, and it is
/// counted from then on.
pub proof fn law_crossing_scores_once(
    start: Passage,
    birds: Seq<int>,
    pipe_center: int,
    crossing: int,
)
    requires
        start != Passage::Scored,
        forall|earlier: int, later: int|
            0 <= earlier <= later < birds.len() ==> birds[earlier] <= birds[later],
        0 <= crossing < birds.len(),
        birds[crossing] > pipe_center,
        crossing > 0 ==> birds[crossing - 1] <= pipe_center,
        start == Passage::LeftOf || seen_left(birds, pipe_center, crossing),
    ensures
        forall|ticks: int|
            0 <= ticks <= crossing ==> #[trigger] passage_over(
                start,
                birds.take(ticks),
                pipe_center,
            ) != Passage::Scored,
        passage_over(start, birds.take(crossing), pipe_center) == Passage::LeftOf,
        forall|ticks: int|
            crossing < ticks <= birds.len() ==> #[trigger] passage_over(
                start,
                birds.take(ticks),
                pipe_center,
            ) == Passage::Scored,
{
    assert forall|tick: int| 0 <= tick < crossing implies birds[tick] <= pipe_center by {
        assert(birds[tick] <= birds[crossing - 1]);
    }
    assert forall|ticks: int| 0 <= ticks <= crossing implies #[trigger] passage_over(
        start,
        birds.take(ticks),
        pipe_center,
    ) != Passage::Scored by {
        lemma_before_crossing(start, birds, pipe_center, ticks);
    }
    lemma_before_crossing(start, birds, pipe_center, crossing);
    assert forall|ticks: int| crossing < ticks <= birds.len() implies #[trigger] passage_over(
        start,
        birds.take(ticks),
        pipe_center,
    ) == Passage::Scored by {
        lemma_after_crossing(start, birds, pipe_center, crossing, ticks);
    }
}

/// While the bird has not been right of the centre, the pair is marked as
/// lying ahead once the bird has been seen left of it, and keeps its
/// passage otherwise.
proof fn lemma_before_crossing(start: Passage, birds: Seq<int>, pipe_center: int, ticks: int)
    requires
        start != Passage::Scored,
        0 <= ticks <= birds.len(),
        forall|tick: int| 0 <= tick < ticks ==> birds[tick] <= pipe_center,
    ensures
        passage_over(start, birds.take(ticks), pipe_center) == if seen_left(
            birds,
            pipe_center,
            ticks,
        ) {
            Passage::LeftOf
        } else {
            start
        },
    decreases ticks,
{
    if ticks > 0 {
        lemma_before_crossing(start, birds, pipe_center, ticks - 1);
        assert(birds.take(ticks).drop_last() =~= birds.take(ticks - 1));
        assert(birds.take(ticks).last() == birds[ticks - 1]);
        if seen_left(birds, pipe_center, ticks - 1) {
            let tick = choose|tick: int|
                0 <= tick < ticks - 1 && #[trigger] birds[tick] < pipe_center;
            assert(0 <= tick < ticks && birds[tick] < pipe_center);
        }
        if seen_left(birds, pipe_center, ticks) && !seen_left(birds, pipe_center, ticks - 1) {
            let tick = choose|tick: int| 0 <= tick < ticks && #[trigger] birds[tick] < pipe_center;
            assert(tick == ticks - 1);
        }
        if birds[ticks - 1] < pipe_center {
            assert(seen_left(birds, pipe_center, ticks));
        }
    } else {
        assert(birds.take(0) =~= Seq::<int>::empty());
    }
}

/// From the tick that first finds the bird right of the centre, the pair is counted.
proof fn lemma_after_crossing(
    start: Passage,
    birds: Seq<int>,
    pipe_center: int,
    crossing: int,
    ticks: int,
)
    requires
        start != Passage::Scored,
        0 <= crossing < ticks <= birds.len(),
        birds[crossing] > pipe_center,
        forall|tick: int| 0 <= tick < crossing ==> birds[tick] <= pipe_center,
        start == Passage::LeftOf || seen_left(birds, pipe_center, crossing),
    ensures
        passage_over(start, birds.take(ticks), pipe_center) == Passage::Scored,
    decreases ticks,
{
    assert(birds.take(ticks).drop_last() =~= birds.take(ticks - 1));
    assert(birds.take(ticks).last() == birds[ticks - 1]);
    if ticks - 1 == crossing {
        lemma_before_crossing(start, birds, pipe_center, crossing);
    } else {
        lemma_after_crossing(start, birds, pipe_center, crossing, ticks - 1);
    }
}

/// The glyph in `slot` of a display of `count` glyphs: the display is
/// right-aligned `DISPLAY_MARGIN` from the right edge of the field.
pub open spec fn glyph(slot: int, digit: u8, count: int, field_width: u32) -> Entity {
    Entity {
        id: EntityId::ScoreDigit(slot as u8),
        sprite: Sprite::Digit(digit),
        size: (DIGIT_WIDTH, DIGIT_HEIGHT),
        bounds: Bounds::Rect(DIGIT_WIDTH, DIGIT_HEIGHT),
        position: (
            (field_width - (count * (DIGIT_WIDTH + DIGIT_SPACING) - DIGIT_SPACING) - DISPLAY_MARGIN
                + slot * (DIGIT_WIDTH + DIGIT_SPACING)) as i64,
            DISPLAY_MARGIN,
        ),
        momentum: (0, 0),
        tags: glyph_tags(),
    }
}

/// The tags of a score glyph.
pub open spec fn glyph_tags() -> TagSet {
    TagSet {
        background: false,
        player: false,
        flying_bird: false,
        ground: false,
        obstacle: false,
        pipe: false,
        score: true,
    }
}

/// The registry once `digits` are on display: the first slots hold their
/// glyphs, the other slots below `DISPLAY_SLOTS` are empty, and nothing
/// else has changed.
pub open spec fn displayed(
    entities: Map<EntityId, Entity>,
    digits: Seq<u8>,
    field_width: u32,
) -> Map<EntityId, Entity> {
    Map::new(
        |id: EntityId|
            match id {
                EntityId::ScoreDigit(slot) => slot < digits.len() || (slot >= DISPLAY_SLOTS
                    && entities.dom().contains(id)),
                _ => entities.dom().contains(id),
            },
        |id: EntityId|
            match id {
                EntityId::ScoreDigit(slot) => if slot < digits.len() {
                    glyph(slot as int, digits[slot as int], digits.len() as int, field_width)
                } else {
                    entities[id]
                },
                _ => entities[id],
            },
    )
}

/// Counts the pairs passed and shows the count.
#[derive(Debug)]
pub struct ScoreManager {
    /// Pairs passed in this run.
    pub score: usize,
    canvas_size: (u32, u32),
    scored_pipes: HashSet<u32>,
    bird_was_left_of_pipe: HashSet<u32>,
}

impl ScoreManager {
    /// Pairs passed in this run.
    pub closed spec fn points(&self) -> nat {
        self.score as nat
    }

    /// Width and height of the field.
    pub closed spec fn field(&self) -> (u32, u32) {
        self.canvas_size
    }

    /// The indices of the pairs that have been counted.
    pub closed spec fn scored(&self) -> Set<u32> {
        self.scored_pipes@
    }

    /// The indices of the pairs that the bird was last seen left of.
    pub closed spec fn left_of(&self) -> Set<u32> {
        self.bird_was_left_of_pipe@
    }

    /// Where the bird stands relative to pair `index`.
    pub open spec fn passage(&self, index: u32) -> Passage {
        if self.scored().contains(index) {
            Passage::Scored
        } else if self.left_of().contains(index) {
            Passage::LeftOf
        } else {
            Passage::Unseen
        }
    }

    /// The score is the number of pairs counted, a counted pair is no
    /// longer marked as lying ahead, and every counted index lay below some
    /// pair counter.
    pub open spec fn wf(&self) -> bool {
        &&& self.scored().finite()
        &&& self.points() == self.scored().len()
        &&& self.scored().disjoint(self.left_of())
        &&& forall|index: u32| self.scored().contains(index) ==> index < u32::MAX
    }

    /// A manager with no pair counted, for a field of size `canvas_size`.
    pub fn new(canvas_size: (u32, u32)) -> (manager: ScoreManager)
        ensures
            manager.wf(),
            manager.points() == 0,
            manager.scored() == Set::<u32>::empty(),
            manager.left_of() == Set::<u32>::empty(),
            manager.field() == canvas_size,
    {
        ScoreManager {
            score: 0,
            canvas_size,
            scored_pipes: HashSet::new(),
            bird_was_left_of_pipe: HashSet::new(),
        }
    }

    /// The score.
    pub fn score(&self) -> (points: usize)
        ensures
            points == self.points(),
    {
        self.score
    }

    /// One tick of scoring over the pairs with an index below
    /// `pipe_counter`: each pair that is not yet counted moves on as
    /// `passage_after` says, and the score grows by one for each pair that
    /// becomes counted.
    pub fn check_score(&mut self, scene: &Scene, pipe_counter: u32, pipe_width: u32)
        requires
            old(self).wf(),
            scene.wf(),
        ensures
            final(self).wf(),
            final(self).field() == old(self).field(),
            forall|index: u32|
                #[trigger] final(self).passage(index) == if index < pipe_counter {
                    passage_after(old(self).passage(index), sighting(scene@, index, pipe_width))
                } else {
                    old(self).passage(index)
                },
            old(self).scored().subset_of(final(self).scored()),
            final(self).points() == old(self).points() + final(self).scored().difference(
                old(self).scored(),
            ).len(),
            final(self).points() >= old(self).points(),
    {
        assert(self.scored().difference(old(self).scored()) =~= Set::<u32>::empty());
        if let Some(bird) = scene.get(EntityId::Bird) {
            let bird_center: i128 = bird.position.0 as i128 + BIRD_HALF_WIDTH as i128;
            let half_width: i128 = (pipe_width / 2) as i128;
            let mut index: u32 = 0;
            while index < pipe_counter
                invariant
                    index <= pipe_counter,
                    scene.wf(),
                    scene@.dom().contains(EntityId::Bird),
                    bird_center == scene@[EntityId::Bird].position.0 + BIRD_HALF_WIDTH,
                    half_width == pipe_width as int / 2,
                    self.wf(),
                    self.field() == old(self).field(),
                    old(self).scored().subset_of(self.scored()),
                    self.points() == old(self).points() + self.scored().difference(
                        old(self).scored(),
                    ).len(),
                    forall|other: u32|
                        #[trigger] self.passage(other) == if other < index {
                            passage_after(
                                old(self).passage(other),
                                sighting(scene@, other, pipe_width),
                            )
                        } else {
                            old(self).passage(other)
                        },
                decreases pipe_counter - index,
            {
                let ghost before = *self;
                if !self.scored_pipes.contains(&index) {
                    if let Some(pipe) = scene.get(EntityId::TopPipe(index)) {
                        let pipe_center: i128 = pipe.position.0 as i128 + half_width;
                        if bird_center < pipe_center {
                            self.bird_was_left_of_pipe.insert(index);
                        } else if self.bird_was_left_of_pipe.contains(&index) && bird_center
                            > pipe_center {
                            proof {
                                lemma_bounded_len(self.scored().insert(index), u32::MAX as nat);
                                assert(self.scored().insert(index).difference(old(self).scored())
                                    =~= self.scored().difference(old(self).scored()).insert(index));
                            }
                            self.score += 1;
                            self.scored_pipes.insert(index);
                            self.bird_was_left_of_pipe.remove(&index);
                        }
                    }
                }
                proof {
                    assert(before.passage(index) == old(self).passage(index));
                    assert(self.passage(index) == passage_after(
                        before.passage(index),
                        sighting(scene@, index, pipe_width),
                    ));
                    assert forall|other: u32| other != index implies #[trigger] self.passage(other)
                        == before.passage(other) by {}
                    assert forall|other: u32|
                        #[trigger] self.passage(other) == if other < index + 1 {
                            passage_after(
                                old(self).passage(other),
                                sighting(scene@, other, pipe_width),
                            )
                        } else {
                            old(self).passage(other)
                        } by {
                        if other != index {
                            assert(self.passage(other) == before.passage(other));
                        }
                    }
                }
                index += 1;
            }
        }
    }

    /// Shows the score: clears the glyph slots below `DISPLAY_SLOTS`, then
    /// places one glyph for each decimal digit, most significant first.
    pub fn update_display(&mut self, scene: &mut Scene)
        requires
            old(self).wf(),
            old(scene).wf(),
        ensures
            *final(self) == *old(self),
            final(scene).wf(),
            final(scene)@ == displayed(
                old(scene)@,
                digits_of(old(self).points()),
                old(self).field().0,
            ),
            1 <= digits_of(old(self).points()).len() <= DISPLAY_SLOTS,
    {
        proof {
            lemma_bounded_len(self.scored(), u32::MAX as nat);
            lemma_at_most_ten_digits(self.score as nat);
        }
        let digits = decimal_digits(self.score);
        let count: usize = digits.len();
        let step: i64 = (DIGIT_WIDTH + DIGIT_SPACING) as i64;
        let total_width: i64 = count as i64 * step - DIGIT_SPACING as i64;
        let start_x: i64 = self.canvas_size.0 as i64 - total_width - DISPLAY_MARGIN;
        clear_display(scene);
        let tags = TagSet::empty().with(Tag::Score);
        proof {
            tags.lemma_same_tags(glyph_tags());
        }
        let ghost cleared = scene@;
        let mut slot: usize = 0;
        while slot < count
            invariant
                slot <= count,
                count == digits@.len(),
                count <= 10,
                step == DIGIT_WIDTH + DIGIT_SPACING,
                tags == glyph_tags(),
                start_x == self.canvas_size.0 - (count * (DIGIT_WIDTH + DIGIT_SPACING)
                    - DIGIT_SPACING) - DISPLAY_MARGIN,
                scene.wf(),
                forall|id: EntityId|
                    scene@.dom().contains(id) == match id {
                        EntityId::ScoreDigit(s) => s < slot || cleared.dom().contains(id),
                        _ => cleared.dom().contains(id),
                    },
                forall|id: EntityId| #[trigger]
                    scene@.dom().contains(id) ==> scene@[id] == match id {
                        EntityId::ScoreDigit(s) => if s < slot {
                            glyph(s as int, digits@[s as int], count as int, self.canvas_size.0)
                        } else {
                            cleared[id]
                        },
                        _ => cleared[id],
                    },
            decreases count - slot,
        {
            assert(0 <= slot * step <= 290 && slot * step == slot * (DIGIT_WIDTH + DIGIT_SPACING))
                by (nonlinear_arith)
                requires
                    0 <= slot < 10,
                    step == 29,
                    DIGIT_WIDTH + DIGIT_SPACING == 29,
            ;
            let placed = Entity {
                id: EntityId::ScoreDigit(slot as u8),
                sprite: Sprite::Digit(digits[slot]),
                size: (DIGIT_WIDTH, DIGIT_HEIGHT),
                bounds: Bounds::Rect(DIGIT_WIDTH, DIGIT_HEIGHT),
                position: (start_x + slot as i64 * step, DISPLAY_MARGIN),
                momentum: (0, 0),
                tags,
            };
            assert(placed == glyph(
                slot as int,
                digits@[slot as int],
                count as int,
                self.canvas_size.0,
            ));
            scene.insert(placed);
            slot += 1;
        }
        assert(scene@ =~= displayed(
            old(scene)@,
            digits_of(old(self).points()),
            old(self).field().0,
        ));
    }

    /// Ends the run: no pair is counted or marked any more, and the display
    /// shows a single `0`.
    pub fn reset(&mut self, scene: &mut Scene)
        requires
            old(scene).wf(),
        ensures
            final(self).wf(),
            final(self).points() == 0,
            final(self).scored() == Set::<u32>::empty(),
            final(self).left_of() == Set::<u32>::empty(),
            final(self).field() == old(self).field(),
            final(scene).wf(),
            final(scene)@ == displayed(old(scene)@, seq![0u8], old(self).field().0),
    {
        self.score = 0;
        self.scored_pipes.clear();
        self.bird_was_left_of_pipe.clear();
        clear_display(scene);
        self.update_display(scene);
        assert(scene@ =~= displayed(old(scene)@, seq![0u8], old(self).field().0));
    }
}

/// Removes the glyphs in the slots below `DISPLAY_SLOTS`.
fn clear_display(scene: &mut Scene)
    requires
        old(scene).wf(),
    ensures
        final(scene).wf(),
        final(scene)@ == displayed(old(scene)@, Seq::<u8>::empty(), 0),
{
    let mut slot: u8 = 0;
    while slot < DISPLAY_SLOTS
        invariant
            slot <= DISPLAY_SLOTS,
            scene.wf(),
            forall|id: EntityId|
                scene@.dom().contains(id) == match id {
                    EntityId::ScoreDigit(s) => s >= slot && old(scene)@.dom().contains(id),
                    _ => old(scene)@.dom().contains(id),
                },
            forall|id: EntityId| #[trigger]
                scene@.dom().contains(id) ==> scene@[id] == old(scene)@[id],
        decreases DISPLAY_SLOTS - slot,
    {
        scene.remove(EntityId::ScoreDigit(slot));
        slot += 1;
    }
    assert(scene@ =~= displayed(old(scene)@, Seq::<u8>::empty(), 0));
}

/// A finite set of indices below `bound` has at most `bound` elements.
proof fn lemma_bounded_len(indices: Set<u32>, bound: nat)
    requires
        indices.finite(),
        forall|index: u32| indices.contains(index) ==> index < bound,
    ensures
        indices.len() <= bound,
    decreases bound,
{
    if bound == 0 {
        assert(indices =~= Set::<u32>::empty());
    } else if bound - 1 > u32::MAX {
        lemma_bounded_len(indices, (bound - 1) as nat);
    } else {
        let last = (bound - 1) as u32;
        lemma_bounded_len(indices.remove(last), (bound - 1) as nat);
    }
}

} // verus!
