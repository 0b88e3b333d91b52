//! The life of the pipe pairs: spawning on a fixed cadence, sweeping what has
//! left the field, and clearing everything when a run ends.

use crate::scene::{Bounds, Entity, EntityId, Scene, Sprite, Tag, TagSet};
use rand::Rng;
use vstd::prelude::*;

verus! {

/// Ticks between two spawns: two seconds at sixty ticks a second.
pub const SPAWN_INTERVAL_TICKS: u32 = 120;

/// Units a pipe moves per tick; negative is leftwards.
pub const PIPE_SPEED: i64 = -3;

/// How far right of the field a pair appears.
pub const SPAWN_MARGIN: i64 = 100;

/// How far beyond the left edge a pipe's left side must be before it is swept.
pub const SWEEP_MARGIN: i64 = 50;

/// Height of the ground strip at the bottom of the field.
pub const GROUND_HEIGHT: u32 = 112;

/// The highest centre a gap can have.
pub const MIN_GAP_Y: i64 = 150;

/// Room kept between the lowest gap and the ground.
pub const GAP_CLEARANCE: i64 = 10;

/// Half of the gap, in whole units.
pub open spec fn half_gap(gap_size: u32) -> int {
    gap_size as int / 2
}

/// The lowest centre a gap can have in a field of the given height.
pub open spec fn max_gap_y(field_height: u32, gap_size: u32) -> int {
    field_height - GROUND_HEIGHT - half_gap(gap_size) - GAP_CLEARANCE
}

/// Whether there is any height at which a gap can be centred.
pub open spec fn gap_fits(field_height: u32, gap_size: u32) -> bool {
    MIN_GAP_Y <= max_gap_y(field_height, gap_size)
}

/// Whether `id` names a pipe of a pair with an index below `counter`.
pub open spec fn is_pipe_below(id: EntityId, counter: u32) -> bool {
    match id {
        EntityId::TopPipe(index) => index < counter,
        EntityId::BottomPipe(index) => index < counter,
        _ => false,
    }
}

/// Whether an entity has scrolled out of sight past the left edge.
pub open spec fn off_screen(entity: Entity, pipe_width: u32) -> bool {
    entity.position.0 < -pipe_width - SWEEP_MARGIN
}

/// The pipes of pairs below `counter` that are registered and out of sight.
pub open spec fn swept(entities: Map<EntityId, Entity>, counter: u32, pipe_width: u32) -> Set<
    EntityId,
> {
    Set::new(
        |id: EntityId|
            is_pipe_below(id, counter) && entities.dom().contains(id) && off_screen(
                entities[id],
                pipe_width,
            ),
    )
}

/// The registry after the sweep: exactly the pipes out of sight are gone.
pub open spec fn sweep(entities: Map<EntityId, Entity>, counter: u32, pipe_width: u32) -> Map<
    EntityId,
    Entity,
> {
    entities.remove_keys(swept(entities, counter, pipe_width))
}

/// The registry without any pipe of a pair below `counter`.
pub open spec fn without_pipes(entities: Map<EntityId, Entity>, counter: u32) -> Map<
    EntityId,
    Entity,
> {
    entities.remove_keys(Set::new(|id: EntityId| is_pipe_below(id, counter)))
}

/// The spawn timer one tick later.
pub open spec fn timer_after_tick(timer: int) -> int {
    if timer + 1 >= SPAWN_INTERVAL_TICKS {
        0
    } else {
        timer + 1
    }
}

/// Whether the tick that starts with this timer value spawns a pair.
pub open spec fn spawn_due(timer: int) -> bool {
    timer + 1 >= SPAWN_INTERVAL_TICKS
}

/// Timer value and pair counter `ticks` ticks after they were `timer` and `counter`.
pub open spec fn cadence(timer: int, counter: int, ticks: nat) -> (int, int)
    decreases ticks,
{
    if ticks == 0 {
        (timer, counter)
    } else {
        let (earlier_timer, earlier_counter) = cadence(timer, counter, (ticks - 1) as nat);
        (
            timer_after_tick(earlier_timer),
            if spawn_due(earlier_timer) {
                earlier_counter + 1
            } else {
                earlier_counter
            },
        )
    }
}

/// Pairs appear every `SPAWN_INTERVAL_TICKS` ticks and never more often:
/// after any number of ticks the counter has grown by the number of whole
/// intervals that have passed since the timer last stood at zero. Counted
/// from a reset, `ticks` ticks spawn `ticks / SPAWN_INTERVAL_TICKS` pairs.
pub proof fn law_spawn_cadence(timer: int, counter: int, ticks: nat)
    requires
        0 <= timer < SPAWN_INTERVAL_TICKS,
    ensures
        cadence(timer, counter, ticks) == (
            (timer + ticks) % (SPAWN_INTERVAL_TICKS as int),
            counter + (timer + ticks) / (SPAWN_INTERVAL_TICKS as int),
        ),
    decreases ticks,
{
    if ticks > 0 {
        law_spawn_cadence(timer, counter, (ticks - 1) as nat);
    }
}

/// The sweep removes a pipe once its left edge lies more than `SWEEP_MARGIN`
/// beyond `-pipe_width`, and not before: an entity is registered after the
/// sweep exactly if it was registered before and is not such a pipe of a
/// pair spawned so far, and every entity that stays is unchanged.
pub proof fn law_sweep_removes_exactly_the_off_screen(
    entities: Map<EntityId, Entity>,
    counter: u32,
    pipe_width: u32,
    id: EntityId,
)
    ensures
        sweep(entities, counter, pipe_width).dom().contains(id) <==> entities.dom().contains(id)
            && !(is_pipe_below(id, counter) && entities[id].position.0 < -pipe_width
            - SWEEP_MARGIN),
        sweep(entities, counter, pipe_width).dom().contains(id) ==> sweep(
            entities,
            counter,
            pipe_width,
        )[id] == entities[id],
{
}

/// Clearing the pipes of a run in which no pair was spawned changes nothing.
pub proof fn law_clearing_nothing_changes_nothing(entities: Map<EntityId, Entity>)
    ensures
        without_pipes(entities, 0) == entities,
{
    assert(without_pipes(entities, 0) =~= entities);
}

/// Spawns, moves out and clears the pipe pairs.
#[derive(Debug)]
pub struct PipeManager {
    /// Ticks since the last spawn.
    pub pipe_spawn_timer: u32,
    /// The index that the next pair gets; also the number of pairs spawned in this run.
    pub pipe_counter: u32,
    pub pipe_width: u32,
    pub pipe_height: u32,
    pub gap_size: u32,
    /// Width and height of the field.
    pub canvas_size: (u32, u32),
}

impl PipeManager {
    /// The timer is within its interval and a gap fits into the field.
    pub open spec fn wf(&self) -> bool {
        &&& self.pipe_spawn_timer < SPAWN_INTERVAL_TICKS
        &&& gap_fits(self.canvas_size.1, self.gap_size)
    }

    /// The upper pipe of pair `index` whose gap is centred at `gap_y`: its
    /// lower edge lies half a gap above the centre.
    pub open spec fn top_pipe(&self, index: u32, gap_y: int) -> Entity {
        Entity {
            id: EntityId::TopPipe(index),
            sprite: Sprite::TopPipe,
            size: (self.pipe_width, self.pipe_height),
            bounds: Bounds::Rect(self.pipe_width, self.pipe_height),
            position: (
                (self.canvas_size.0 + SPAWN_MARGIN) as i64,
                (gap_y - half_gap(self.gap_size) - self.pipe_height) as i64,
            ),
            momentum: (PIPE_SPEED, 0),
            tags: Self::pipe_tags(),
        }
    }

    /// The lower pipe of pair `index`: its upper edge lies half a gap below the centre.
    pub open spec fn bottom_pipe(&self, index: u32, gap_y: int) -> Entity {
        Entity {
            id: EntityId::BottomPipe(index),
            sprite: Sprite::BottomPipe,
            size: (self.pipe_width, self.pipe_height),
            bounds: Bounds::Rect(self.pipe_width, self.pipe_height),
            position: (
                (self.canvas_size.0 + SPAWN_MARGIN) as i64,
                (gap_y + half_gap(self.gap_size)) as i64,
            ),
            momentum: (PIPE_SPEED, 0),
            tags: Self::pipe_tags(),
        }
    }

    /// The tags of every pipe: it is an obstacle of the category pipe.
    pub open spec fn pipe_tags() -> TagSet {
        TagSet {
            background: false,
            player: false,
            flying_bird: false,
            ground: false,
            obstacle: true,
            pipe: true,
            score: false,
        }
    }

    /// The registry with pair `index` added around a gap centred at `gap_y`.
    pub open spec fn with_pair(
        &self,
        entities: Map<EntityId, Entity>,
        index: u32,
        gap_y: int,
    ) -> Map<EntityId, Entity> {
        entities.insert(EntityId::TopPipe(index), self.top_pipe(index, gap_y)).insert(
            EntityId::BottomPipe(index),
            self.bottom_pipe(index, gap_y),
        )
    }

    /// The pair counter one tick later.
    pub open spec fn counter_after_tick(&self) -> int {
        if spawn_due(self.pipe_spawn_timer as int) {
            self.pipe_counter + 1
        } else {
            self.pipe_counter as int
        }
    }

    /// The registry one tick later: when a spawn is due, the next pair has
    /// appeared around a gap centred at `gap_y`; then the pipes out of
    /// sight have been swept.
    pub open spec fn advanced(&self, entities: Map<EntityId, Entity>, gap_y: int) -> Map<
        EntityId,
        Entity,
    > {
        if spawn_due(self.pipe_spawn_timer as int) {
            sweep(
                self.with_pair(entities, self.pipe_counter, gap_y),
                (self.pipe_counter + 1) as u32,
                self.pipe_width,
            )
        } else {
            sweep(entities, self.pipe_counter, self.pipe_width)
        }
    }

    /// Tests whether a gap of `gap_size` fits into a field of size `canvas_size`.
    pub fn gap_fits_field(gap_size: u32, canvas_size: (u32, u32)) -> (fits: bool)
        ensures
            fits == gap_fits(canvas_size.1, gap_size),
    {
        let lowest: i64 = canvas_size.1 as i64 - GROUND_HEIGHT as i64 - (gap_size / 2) as i64
            - GAP_CLEARANCE;
        MIN_GAP_Y <= lowest
    }

    /// A manager for pipes of the given size in a field of size `canvas_size`,
    /// with no pair spawned yet. A field into which no gap fits is a
    /// configuration error and is not accepted.
    pub fn new(
        pipe_width: u32,
        pipe_height: u32,
        gap_size: u32,
        canvas_size: (u32, u32),
    ) -> (manager: PipeManager)
        requires
            gap_fits(canvas_size.1, gap_size),
        ensures
            manager.wf(),
            manager.pipe_spawn_timer == 0,
            manager.pipe_counter == 0,
            manager.pipe_width == pipe_width,
            manager.pipe_height == pipe_height,
            manager.gap_size == gap_size,
            manager.canvas_size == canvas_size,
    {
        PipeManager {
            pipe_spawn_timer: 0,
            pipe_counter: 0,
            pipe_width,
            pipe_height,
            gap_size,
            canvas_size,
        }
    }

    /// One tick: the timer advances; when it reaches the spawn interval a
    /// pair is spawned around a gap drawn at random and the timer starts
    /// over; then the pipes out of sight are swept.
    pub fn update(&mut self, scene: &mut Scene)
        requires
            old(self).wf(),
            old(scene).wf(),
            spawn_due(old(self).pipe_spawn_timer as int) ==> old(self).pipe_counter < u32::MAX,
        ensures
            final(self).wf(),
            final(scene).wf(),
            final(self).pipe_spawn_timer == timer_after_tick(old(self).pipe_spawn_timer as int),
            final(self).pipe_width == old(self).pipe_width,
            final(self).pipe_height == old(self).pipe_height,
            final(self).gap_size == old(self).gap_size,
            final(self).canvas_size == old(self).canvas_size,
            final(self).pipe_counter == old(self).counter_after_tick(),
            exists|gap_y: int|
                {
                    &&& spawn_due(old(self).pipe_spawn_timer as int) ==> MIN_GAP_Y <= gap_y
                        <= max_gap_y(old(self).canvas_size.1, old(self).gap_size)
                    &&& final(scene)@ == #[trigger] old(self).advanced(old(scene)@, gap_y)
                },
    {
        self.pipe_spawn_timer += 1;
        let ghost mut drawn: int = 0;
        if self.pipe_spawn_timer >= SPAWN_INTERVAL_TICKS {
            let ghost due = *self;
            self.spawn_pipe_pair(scene);
            self.pipe_spawn_timer = 0;
            proof {
                drawn = choose|gap_y: int|
                    {
                        &&& MIN_GAP_Y <= gap_y <= max_gap_y(due.canvas_size.1, due.gap_size)
                        &&& scene@ == #[trigger] due.with_pair(
                            old(scene)@,
                            due.pipe_counter,
                            gap_y,
                        )
                    };
                assert(due.with_pair(old(scene)@, due.pipe_counter, drawn) == old(self).with_pair(
                    old(scene)@,
                    old(self).pipe_counter,
                    drawn,
                ));
            }
        }
        let ghost spawned = scene@;
        self.remove_offscreen_pipes(scene);
        proof {
            if spawn_due(old(self).pipe_spawn_timer as int) {
                assert(spawned == old(self).with_pair(old(scene)@, old(self).pipe_counter, drawn));
            }
            assert(scene@ == old(self).advanced(old(scene)@, drawn));
        }
    }

    /// Spawns the next pair around a gap whose centre is drawn uniformly
    /// from `MIN_GAP_Y` to the lowest centre that fits.
    pub fn spawn_pipe_pair(&mut self, scene: &mut Scene)
        requires
            gap_fits(old(self).canvas_size.1, old(self).gap_size),
            old(scene).wf(),
            old(self).pipe_counter < u32::MAX,
        ensures
            final(scene).wf(),
            final(self).pipe_counter == old(self).pipe_counter + 1,
            final(self).pipe_spawn_timer == old(self).pipe_spawn_timer,
            final(self).pipe_width == old(self).pipe_width,
            final(self).pipe_height == old(self).pipe_height,
            final(self).gap_size == old(self).gap_size,
            final(self).canvas_size == old(self).canvas_size,
            exists|gap_y: int|
                {
                    &&& MIN_GAP_Y <= gap_y <= max_gap_y(old(self).canvas_size.1, old(self).gap_size)
                    &&& final(scene)@ == #[trigger] old(self).with_pair(
                        old(scene)@,
                        old(self).pipe_counter,
                        gap_y,
                    )
                },
    {
        let lowest: i64 = self.canvas_size.1 as i64 - GROUND_HEIGHT as i64 - (self.gap_size
            / 2) as i64 - GAP_CLEARANCE;
        let gap_y: i64 = random_between(MIN_GAP_Y, lowest);
        self.spawn_pair_at(scene, gap_y);
        assert(scene@ == old(self).with_pair(old(scene)@, old(self).pipe_counter, gap_y as int));
    }

    /// Spawns the next pair around a gap centred at `gap_y`: both pipes
    /// appear `SPAWN_MARGIN` right of the field, move left at `PIPE_SPEED`,
    /// and share the index that the counter had; the counter moves on.
    pub fn spawn_pair_at(&mut self, scene: &mut Scene, gap_y: i64)
        requires
            MIN_GAP_Y <= gap_y <= max_gap_y(old(self).canvas_size.1, old(self).gap_size),
            old(scene).wf(),
            old(self).pipe_counter < u32::MAX,
        ensures
            final(scene).wf(),
            final(scene)@ == old(self).with_pair(
                old(scene)@,
                old(self).pipe_counter,
                gap_y as int,
            ),
            final(self).pipe_counter == old(self).pipe_counter + 1,
            final(self).pipe_spawn_timer == old(self).pipe_spawn_timer,
            final(self).pipe_width == old(self).pipe_width,
            final(self).pipe_height == old(self).pipe_height,
            final(self).gap_size == old(self).gap_size,
            final(self).canvas_size == old(self).canvas_size,
    {
        let x: i64 = self.canvas_size.0 as i64 + SPAWN_MARGIN;
        let half: i64 = (self.gap_size / 2) as i64;
        let tags = TagSet::empty().with(Tag::Pipe).with(Tag::Obstacle);
        proof {
            tags.lemma_same_tags(Self::pipe_tags());
        }
        let top = Entity {
            id: EntityId::TopPipe(self.pipe_counter),
            sprite: Sprite::TopPipe,
            size: (self.pipe_width, self.pipe_height),
            bounds: Bounds::Rect(self.pipe_width, self.pipe_height),
            position: (x, gap_y - half - self.pipe_height as i64),
            momentum: (PIPE_SPEED, 0),
            tags,
        };
        let bottom = Entity {
            id: EntityId::BottomPipe(self.pipe_counter),
            sprite: Sprite::BottomPipe,
            size: (self.pipe_width, self.pipe_height),
            bounds: Bounds::Rect(self.pipe_width, self.pipe_height),
            position: (x, gap_y + half),
            momentum: (PIPE_SPEED, 0),
            tags,
        };
        scene.insert(top);
        scene.insert(bottom);
        self.pipe_counter += 1;
    }

    /// Removes every pipe of a pair spawned so far whose left edge is more
    /// than `SWEEP_MARGIN` beyond the point where its right edge left the
    /// field; every other entity stays as it is.
    pub fn remove_offscreen_pipes(&mut self, scene: &mut Scene)
        requires
            old(scene).wf(),
        ensures
            final(scene).wf(),
            final(scene)@ == sweep(old(scene)@, old(self).pipe_counter, old(self).pipe_width),
            *final(self) == *old(self),
    {
        let threshold: i64 = -(self.pipe_width as i64) - SWEEP_MARGIN;
        let mut index: u32 = 0;
        while index < self.pipe_counter
            invariant
                index <= self.pipe_counter,
                threshold == -self.pipe_width - SWEEP_MARGIN,
                scene.wf(),
                scene@ == sweep(old(scene)@, index, self.pipe_width),
            decreases self.pipe_counter - index,
        {
            let ghost before = scene@;
            let top = EntityId::TopPipe(index);
            let bottom = EntityId::BottomPipe(index);
            if let Some(pipe) = scene.get(top) {
                if pipe.position.0 < threshold {
                    scene.remove(top);
                }
            }
            if let Some(pipe) = scene.get(bottom) {
                if pipe.position.0 < threshold {
                    scene.remove(bottom);
                }
            }
            index += 1;
            assert(scene@ =~= sweep(old(scene)@, index, self.pipe_width));
        }
    }

    /// Ends the run: removes every pipe of every pair spawned so far and
    /// sets the counter and the timer back to zero.
    pub fn reset(&mut self, scene: &mut Scene)
        requires
            old(scene).wf(),
        ensures
            final(scene).wf(),
            final(scene)@ == without_pipes(old(scene)@, old(self).pipe_counter),
            final(self).pipe_counter == 0,
            final(self).pipe_spawn_timer == 0,
            final(self).pipe_width == old(self).pipe_width,
            final(self).pipe_height == old(self).pipe_height,
            final(self).gap_size == old(self).gap_size,
            final(self).canvas_size == old(self).canvas_size,
    {
        let mut index: u32 = 0;
        while index < self.pipe_counter
            invariant
                index <= self.pipe_counter,
                scene.wf(),
                scene@ == without_pipes(old(scene)@, index),
                *self == *old(self),
            decreases self.pipe_counter - index,
        {
            scene.remove(EntityId::TopPipe(index));
            scene.remove(EntityId::BottomPipe(index));
            index += 1;
            assert(scene@ =~= without_pipes(old(scene)@, index));
        }
        self.pipe_counter = 0;
        self.pipe_spawn_timer = 0;
    }
}

/// Draws a number with `rand::thread_rng().gen_range(low..=high)`. The
/// generator rejects an empty range, so `low <= high` is required; all that
/// is claimed of the number drawn is that it lies within the range.
#[verifier::external_body]
fn random_between(low: i64, high: i64) -> (drawn: i64)
    requires
        low <= high,
    ensures
        low <= drawn <= high,
{
    rand::thread_rng().gen_range(low..=high)
}

} // verus!
