//! The gameplay core of a side-scrolling arcade game: a bird flies through
//! pairs of pipes, scores one point for each pair it passes, and starts over
//! when it hits a pipe or the ground.
//!
//! Lengths and positions are whole world units and time is counted in ticks
//! of one sixtieth of a second. Entities live in a [`scene::Scene`], which a
//! renderer mirrors; the renderer moves them by their momentum and reports
//! collisions, everything else is decided here.

pub mod decimal;
pub mod ground;
pub mod mirror;
pub mod names;
pub mod pipe;
pub mod rules;
pub mod scene;
pub mod score;

use crate::ground::{ground_scrolled, scroll_segment, GROUND_SEGMENTS};
use crate::pipe::{
    is_pipe_below, max_gap_y, spawn_due, timer_after_tick, without_pipes, PipeManager, MIN_GAP_Y,
};
use crate::rules::{Action, Rule, Target, Trigger};
use crate::scene::{Bounds, Entity, EntityId, Scene, Sprite, Tag, TagSet};
use crate::decimal::digits_of;
use crate::score::{displayed, glyph, passage_after, sighting, ScoreManager, DISPLAY_SLOTS};
use vstd::prelude::*;

verus! {

/// Width of the field.
pub const FIELD_WIDTH: u32 = 800;

/// Height of the field.
pub const FIELD_HEIGHT: u32 = 600;

/// Width of the bird's picture.
pub const BIRD_WIDTH: u32 = 50;

/// Height of the bird's picture.
pub const BIRD_HEIGHT: u32 = 35;

/// Where the bird's left edge is at the start of a run.
pub const BIRD_START_X: i64 = 200;

/// Where the bird's top edge is at the start of a run.
pub const BIRD_START_Y: i64 = 300;

/// Width of a pipe.
pub const PIPE_WIDTH: u32 = 50;

/// Height of a pipe.
pub const PIPE_HEIGHT: u32 = 800;

/// Height of the gap between the two pipes of a pair.
pub const GAP_SIZE: u32 = 220;

/// Width of one ground segment.
pub const BASE_WIDTH: u32 = 336;

/// Height of one ground segment.
pub const BASE_HEIGHT: u32 = 112;

/// The key that makes the bird flap.
pub const FLAP_KEY: char = 'w';

/// The upward momentum of a flap, in tenths of a unit per tick.
pub const FLAP_IMPULSE_TENTHS: i64 = -105;

/// The registry with the bird back where a run starts, at rest.
pub open spec fn bird_home(entities: Map<EntityId, Entity>) -> Map<EntityId, Entity> {
    if entities.dom().contains(EntityId::Bird) {
        entities.insert(
            EntityId::Bird,
            Entity {
                position: (BIRD_START_X, BIRD_START_Y),
                momentum: (0, 0),
                ..entities[EntityId::Bird]
            },
        )
    } else {
        entities
    }
}

/// The registry with the bird kept below the top of the field: a bird at
/// or above the top edge is set onto it and loses its vertical momentum.
pub open spec fn ceiling_clamped(entities: Map<EntityId, Entity>) -> Map<EntityId, Entity> {
    if entities.dom().contains(EntityId::Bird) && entities[EntityId::Bird].position.1 <= 0 {
        entities.insert(
            EntityId::Bird,
            Entity {
                position: (entities[EntityId::Bird].position.0, 0),
                momentum: (entities[EntityId::Bird].momentum.0, 0),
                ..entities[EntityId::Bird]
            },
        )
    } else {
        entities
    }
}

/// The registry after a run that spawned `counter` pairs has ended: the
/// bird is home, no pipe of the run is left, and the display shows `0`.
pub open spec fn run_ended(entities: Map<EntityId, Entity>, counter: u32, field_width: u32) -> Map<
    EntityId,
    Entity,
> {
    displayed(without_pipes(bird_home(entities), counter), seq![0u8], field_width)
}

/// Whether the registry holds no pipe of a pair that is yet to be spawned
/// and no glyph outside the display's slots.
pub open spec fn tidy(entities: Map<EntityId, Entity>, counter: u32) -> bool {
    forall|id: EntityId| #[trigger]
        entities.dom().contains(id) ==> match id {
            EntityId::TopPipe(index) => index < counter,
            EntityId::BottomPipe(index) => index < counter,
            EntityId::ScoreDigit(slot) => slot < DISPLAY_SLOTS,
            _ => true,
        }
}

/// Ending a run twice is the same as ending it once: the registry that a
/// reset leaves is left unchanged by another reset, whose counter is zero.
pub proof fn law_reset_is_idempotent(
    entities: Map<EntityId, Entity>,
    counter: u32,
    field_width: u32,
)
    ensures
        run_ended(run_ended(entities, counter, field_width), 0, field_width) == run_ended(
            entities,
            counter,
            field_width,
        ),
{
    let once = run_ended(entities, counter, field_width);
    assert(bird_home(once) =~= once);
    assert(without_pipes(once, 0) =~= once);
    assert(displayed(once, seq![0u8], field_width) =~= once);
}

/// After a reset of a tidy registry no pipe is left and the display is a
/// single `0` glyph.
pub proof fn law_reset_clears_the_field(
    entities: Map<EntityId, Entity>,
    counter: u32,
    field_width: u32,
)
    requires
        tidy(entities, counter),
    ensures
        ({
            let after = run_ended(entities, counter, field_width);
            &&& tidy(after, 0)
            &&& forall|index: u32|
                !after.dom().contains(EntityId::TopPipe(index)) && !after.dom().contains(
                    EntityId::BottomPipe(index),
                )
            &&& forall|slot: u8| after.dom().contains(EntityId::ScoreDigit(slot)) <==> slot == 0
            &&& after[EntityId::ScoreDigit(0)] == glyph(0, 0, 1, field_width)
        }),
{
    let after = run_ended(entities, counter, field_width);
    assert forall|index: u32|
        !after.dom().contains(EntityId::TopPipe(index)) && !after.dom().contains(
            EntityId::BottomPipe(index),
        ) by {
        if entities.dom().contains(EntityId::TopPipe(index)) {
            assert(is_pipe_below(EntityId::TopPipe(index), counter));
        }
        if entities.dom().contains(EntityId::BottomPipe(index)) {
            assert(is_pipe_below(EntityId::BottomPipe(index), counter));
        }
    }
    assert forall|slot: u8| after.dom().contains(EntityId::ScoreDigit(slot)) <==> slot == 0 by {
        if entities.dom().contains(EntityId::ScoreDigit(slot)) {
            assert(slot < DISPLAY_SLOTS);
        }
    }
}

/// The background picture, which fills the field.
pub open spec fn backdrop() -> Entity {
    Entity {
        id: EntityId::Background,
        sprite: Sprite::Background,
        size: (FIELD_WIDTH, FIELD_HEIGHT),
        bounds: Bounds::enclosing((FIELD_WIDTH, FIELD_HEIGHT)),
        position: (0, 0),
        momentum: (0, 0),
        tags: TagSet {
            background: true,
            player: false,
            flying_bird: false,
            ground: false,
            obstacle: false,
            pipe: false,
            score: false,
        },
    }
}

/// The bird where a run starts, at rest.
pub open spec fn bird_at_start() -> Entity {
    Entity {
        id: EntityId::Bird,
        sprite: Sprite::Bird,
        size: (BIRD_WIDTH, BIRD_HEIGHT),
        bounds: Bounds::enclosing((BIRD_WIDTH, BIRD_HEIGHT)),
        position: (BIRD_START_X, BIRD_START_Y),
        momentum: (0, 0),
        tags: TagSet {
            background: false,
            player: true,
            flying_bird: true,
            ground: false,
            obstacle: false,
            pipe: false,
            score: false,
        },
    }
}

/// The ground segment in `slot`, counted from `1`: the segments lie edge
/// to edge along the bottom of the field, the first at the left edge.
pub open spec fn ground_segment(slot: u8) -> Entity {
    Entity {
        id: EntityId::Base(slot),
        sprite: Sprite::Base,
        size: (BASE_WIDTH, BASE_HEIGHT),
        bounds: Bounds::enclosing((BASE_WIDTH, BASE_HEIGHT)),
        position: (((slot - 1) * BASE_WIDTH) as i64, (FIELD_HEIGHT - BASE_HEIGHT) as i64),
        momentum: (0, 0),
        tags: TagSet {
            background: false,
            player: false,
            flying_bird: false,
            ground: true,
            obstacle: true,
            pipe: false,
            score: false,
        },
    }
}

/// The registry at the start: background, bird and four ground segments.
pub open spec fn opening_scene() -> Map<EntityId, Entity> {
    Map::<EntityId, Entity>::empty().insert(EntityId::Background, backdrop()).insert(
        EntityId::Bird,
        bird_at_start(),
    ).insert(EntityId::Base(1), ground_segment(1)).insert(
        EntityId::Base(2),
        ground_segment(2),
    ).insert(EntityId::Base(3), ground_segment(3)).insert(EntityId::Base(4), ground_segment(4))
}

/// The rules of the game: the flap key gives the bird its upward momentum,
/// and touching an obstacle takes the bird's momentum away.
pub open spec fn opening_rules() -> Seq<Rule> {
    seq![
        Rule {
            subject: Target::Entity(EntityId::Bird),
            trigger: Trigger::KeyPress(FLAP_KEY),
            action: Action::ApplyMomentum {
                target: Target::Entity(EntityId::Bird),
                tenths: (0, FLAP_IMPULSE_TENTHS),
            },
        },
        Rule {
            subject: Target::Entity(EntityId::Bird),
            trigger: Trigger::Collision(Target::Tagged(Tag::Obstacle)),
            action: Action::ApplyMomentum {
                target: Target::Entity(EntityId::Bird),
                tenths: (0, 0),
            },
        },
    ]
}

/// One game: the registry, the two managers and the ground.
#[derive(Debug)]
pub struct Game {
    scene: Scene,
    canvas_size: (u32, u32),
    pipe_manager: PipeManager,
    score_manager: ScoreManager,
    base_width: u32,
    rules: Vec<Rule>,
}

impl Game {
    /// The registered entities.
    pub closed spec fn entities(&self) -> Map<EntityId, Entity> {
        self.scene@
    }

    /// The pipe manager.
    pub closed spec fn pipes(&self) -> PipeManager {
        self.pipe_manager
    }

    /// The score manager.
    pub closed spec fn scores(&self) -> ScoreManager {
        self.score_manager
    }

    /// Width and height of the field.
    pub closed spec fn field(&self) -> (u32, u32) {
        self.canvas_size
    }

    /// Width of one ground segment.
    pub closed spec fn ground_width(&self) -> u32 {
        self.base_width
    }

    /// The rules that the renderer evaluates.
    pub closed spec fn rule_table(&self) -> Seq<Rule> {
        self.rules@
    }

    /// The registry holds each identity once.
    pub closed spec fn registry_wf(&self) -> bool {
        self.scene.wf()
    }

    /// The parts are well-formed and agree on the field, the ground has a
    /// width, and the registry is tidy.
    pub open spec fn wf(&self) -> bool {
        &&& self.registry_wf()
        &&& self.pipes().wf()
        &&& self.scores().wf()
        &&& self.pipes().canvas_size == self.field()
        &&& self.scores().field() == self.field()
        &&& self.ground_width() >= 1
        &&& tidy(self.entities(), self.pipes().pipe_counter)
    }

    /// Whether the two games were set up alike: field, pipes, ground and rules.
    pub open spec fn same_setup(&self, before: Game) -> bool {
        &&& self.field() == before.field()
        &&& self.ground_width() == before.ground_width()
        &&& self.rule_table() == before.rule_table()
        &&& self.pipes().pipe_width == before.pipes().pipe_width
        &&& self.pipes().pipe_height == before.pipes().pipe_height
        &&& self.pipes().gap_size == before.pipes().gap_size
        &&& self.pipes().canvas_size == before.pipes().canvas_size
        &&& self.scores().field() == before.scores().field()
    }

    /// Whether this is `before` after its run has ended: the bird is home
    /// and at rest, no pipe is left, counter and spawn timer are zero, the
    /// score is zero with no pair counted or marked, and the display shows `0`.
    pub open spec fn ended(&self, before: Game) -> bool {
        &&& self.same_setup(before)
        &&& self.entities() == run_ended(
            before.entities(),
            before.pipes().pipe_counter,
            before.field().0,
        )
        &&& self.pipes().pipe_counter == 0
        &&& self.pipes().pipe_spawn_timer == 0
        &&& self.scores().points() == 0
        &&& self.scores().scored() == Set::<u32>::empty()
        &&& self.scores().left_of() == Set::<u32>::empty()
    }

    /// The registry of `self` one tick later, before anything is scored:
    /// the pipes have advanced, with a gap centred at `gap_y` if a pair was
    /// due, and the ground has scrolled.
    pub open spec fn moved(&self, gap_y: int) -> Map<EntityId, Entity> {
        ground_scrolled(
            self.pipes().advanced(self.entities(), gap_y),
            GROUND_SEGMENTS,
            self.ground_width(),
        )
    }

    /// Whether this is `before` after one tick without a collision, in
    /// which a pair that was due appeared around a gap centred at `gap_y`.
    /// Pipes and ground have moved on; each pair spawned so far has gone
    /// through one step of its passage; no counted pair is lost and the
    /// score has grown by one for each pair newly counted; the display
    /// shows the score; and the bird is kept below the top of the field.
    pub open spec fn played(&self, before: Game, gap_y: int) -> bool {
        &&& self.same_setup(before)
        &&& self.pipes().pipe_spawn_timer == timer_after_tick(
            before.pipes().pipe_spawn_timer as int,
        )
        &&& self.pipes().pipe_counter == before.pipes().counter_after_tick()
        &&& forall|index: u32|
            #[trigger] self.scores().passage(index) == if index < self.pipes().pipe_counter {
                passage_after(
                    before.scores().passage(index),
                    sighting(before.moved(gap_y), index, before.pipes().pipe_width),
                )
            } else {
                before.scores().passage(index)
            }
        &&& before.scores().scored().subset_of(self.scores().scored())
        &&& self.scores().points() == before.scores().points() + self.scores().scored().difference(
            before.scores().scored(),
        ).len()
        &&& self.entities() == ceiling_clamped(
            displayed(before.moved(gap_y), digits_of(self.scores().points()), before.field().0),
        )
    }

    /// The registry.
    pub fn scene(&self) -> (scene: &Scene)
        ensures
            scene@ == self.entities(),
            scene.wf() == self.registry_wf(),
    {
        &self.scene
    }

    /// The pipe manager.
    pub fn pipe_manager(&self) -> (manager: &PipeManager)
        ensures
            *manager == self.pipes(),
    {
        &self.pipe_manager
    }

    /// The score manager.
    pub fn score_manager(&self) -> (manager: &ScoreManager)
        ensures
            *manager == self.scores(),
    {
        &self.score_manager
    }

    /// The rules that the renderer is to evaluate.
    pub fn rules(&self) -> (rules: &Vec<Rule>)
        ensures
            rules@ == self.rule_table(),
    {
        &self.rules
    }

    /// Width and height of the field.
    pub fn canvas_size(&self) -> (size: (u32, u32))
        ensures
            size == self.field(),
    {
        self.canvas_size
    }

    /// Takes over where the renderer has moved an entity to and what
    /// momentum it has now; an identity that is not registered is ignored.
    pub fn observe(&mut self, id: EntityId, position: (i64, i64), momentum: (i64, i64))
        requires
            old(self).wf(),
        ensures
            final(self).wf(),
            final(self).same_setup(*old(self)),
            final(self).pipes() == old(self).pipes(),
            final(self).scores() == old(self).scores(),
            final(self).entities() == if old(self).entities().dom().contains(id) {
                old(self).entities().insert(
                    id,
                    Entity { position, momentum, ..old(self).entities()[id] },
                )
            } else {
                old(self).entities()
            },
    {
        if let Some(entity) = self.scene.get(id) {
            self.scene.insert(Entity { position, momentum, ..entity });
        }
    }

    /// One tick. `collided` says whether the renderer found the bird
    /// touching anything tagged as an obstacle, pipes and ground alike. If
    /// so the run ends and nothing else happens in this tick; otherwise the
    /// pipes advance, the ground scrolls, passages are scored, the display
    /// is renewed and the bird is kept below the top of the field.
    pub fn update_game(&mut self, collided: bool)
        requires
            old(self).wf(),
            !collided && spawn_due(old(self).pipes().pipe_spawn_timer as int) ==> old(
                self,
            ).pipes().pipe_counter < u32::MAX,
        ensures
            final(self).wf(),
            collided ==> final(self).ended(*old(self)),
            !collided ==> exists|gap_y: int|
                {
                    &&& spawn_due(old(self).pipes().pipe_spawn_timer as int) ==> MIN_GAP_Y
                        <= gap_y <= max_gap_y(
                        old(self).pipes().canvas_size.1,
                        old(self).pipes().gap_size,
                    )
                    &&& #[trigger] final(self).played(*old(self), gap_y)
                },
    {
        if self.check_collisions(collided) {
            return ;
        }
        self.pipe_manager.update(&mut self.scene);
        let ghost gap_y = choose|gap_y: int|
            {
                &&& spawn_due(old(self).pipes().pipe_spawn_timer as int) ==> MIN_GAP_Y <= gap_y
                    <= max_gap_y(old(self).pipes().canvas_size.1, old(self).pipes().gap_size)
                &&& self.scene@ == #[trigger] old(self).pipes().advanced(
                    old(self).entities(),
                    gap_y,
                )
            };
        self.update_base_positions();
        assert(self.scene@ == old(self).moved(gap_y));
        self.score_manager.check_score(
            &self.scene,
            self.pipe_manager.pipe_counter,
            self.pipe_manager.pipe_width,
        );
        self.score_manager.update_display(&mut self.scene);
        self.check_ceiling_collision();
        assert(self.played(*old(self), gap_y));
    }

    /// Ends the run if the bird has hit an obstacle, and says whether it did.
    pub fn check_collisions(&mut self, collided: bool) -> (ended: bool)
        requires
            old(self).wf(),
        ensures
            final(self).wf(),
            ended == collided,
            collided ==> final(self).ended(*old(self)),
            !collided ==> *final(self) == *old(self),
    {
        if collided {
            self.handle_game_over();
        }
        collided
    }

    /// Keeps the bird below the top of the field: a bird at or above the
    /// top edge is set onto it and loses its vertical momentum. There is no
    /// such limit at the bottom, where the ground stops the bird.
    pub fn check_ceiling_collision(&mut self)
        requires
            old(self).wf(),
        ensures
            final(self).wf(),
            final(self).same_setup(*old(self)),
            final(self).pipes() == old(self).pipes(),
            final(self).scores() == old(self).scores(),
            final(self).entities() == ceiling_clamped(old(self).entities()),
    {
        if let Some(bird) = self.scene.get(EntityId::Bird) {
            if bird.position.1 <= 0 {
                self.scene.insert(
                    Entity {
                        position: (bird.position.0, 0),
                        momentum: (bird.momentum.0, 0),
                        ..bird
                    },
                );
            }
        }
    }

    /// Ends the run: the bird goes home and comes to rest, every pipe is
    /// removed, and counter, spawn timer and score start over.
    pub fn handle_game_over(&mut self)
        requires
            old(self).wf(),
        ensures
            final(self).wf(),
            final(self).ended(*old(self)),
    {
        if let Some(bird) = self.scene.get(EntityId::Bird) {
            self.scene.insert(
                Entity { position: (BIRD_START_X, BIRD_START_Y), momentum: (0, 0), ..bird },
            );
        }
        self.pipe_manager.reset(&mut self.scene);
        self.score_manager.reset(&mut self.scene);
        proof {
            law_reset_clears_the_field(
                old(self).entities(),
                old(self).pipes().pipe_counter,
                old(self).field().0,
            );
        }
    }

    /// Scrolls the ground by one tick: each segment moves left, and one
    /// whose left edge has passed its own width beyond the left edge of the
    /// field is set to the right end of the strip.
    pub fn update_base_positions(&mut self)
        requires
            old(self).wf(),
        ensures
            final(self).wf(),
            final(self).same_setup(*old(self)),
            final(self).pipes() == old(self).pipes(),
            final(self).scores() == old(self).scores(),
            final(self).entities() == ground_scrolled(
                old(self).entities(),
                GROUND_SEGMENTS,
                old(self).ground_width(),
            ),
    {
        let mut slot: u8 = 0;
        while slot < GROUND_SEGMENTS
            invariant
                slot <= GROUND_SEGMENTS,
                self.wf(),
                self.same_setup(*old(self)),
                self.pipes() == old(self).pipes(),
                self.scores() == old(self).scores(),
                self.entities() == ground_scrolled(
                    old(self).entities(),
                    slot,
                    old(self).ground_width(),
                ),
            decreases GROUND_SEGMENTS - slot,
        {
            slot += 1;
            scroll_segment(&mut self.scene, slot, self.base_width);
        }
    }
}

/// Sets the game up.
pub struct MyApp;

impl MyApp {
    /// A new game in a field of `FIELD_WIDTH` by `FIELD_HEIGHT`: the
    /// background, the bird at its start, four ground segments edge to
    /// edge, the two rules, no pipe and no score yet.
    pub fn new() -> (game: Game)
        ensures
            game.wf(),
            game.entities() == opening_scene(),
            game.rule_table() == opening_rules(),
            game.field() == (FIELD_WIDTH, FIELD_HEIGHT),
            game.ground_width() == BASE_WIDTH,
            game.pipes().pipe_counter == 0,
            game.pipes().pipe_spawn_timer == 0,
            game.pipes().pipe_width == PIPE_WIDTH,
            game.pipes().pipe_height == PIPE_HEIGHT,
            game.pipes().gap_size == GAP_SIZE,
            game.scores().points() == 0,
            game.scores().scored() == Set::<u32>::empty(),
            game.scores().left_of() == Set::<u32>::empty(),
    {
        let initial_size: (u32, u32) = (FIELD_WIDTH, FIELD_HEIGHT);
        let mut scene = Scene::new();

        let background_tags = TagSet::empty().with(Tag::Background);
        proof {
            background_tags.lemma_same_tags(backdrop().tags);
        }
        scene.insert(
            Entity {
                id: EntityId::Background,
                sprite: Sprite::Background,
                size: initial_size,
                bounds: Bounds::around(initial_size),
                position: (0, 0),
                momentum: (0, 0),
                tags: background_tags,
            },
        );

        let bird_tags = TagSet::empty().with(Tag::Player).with(Tag::FlyingBird);
        proof {
            bird_tags.lemma_same_tags(bird_at_start().tags);
        }
        scene.insert(
            Entity {
                id: EntityId::Bird,
                sprite: Sprite::Bird,
                size: (BIRD_WIDTH, BIRD_HEIGHT),
                bounds: Bounds::around((BIRD_WIDTH, BIRD_HEIGHT)),
                position: (BIRD_START_X, BIRD_START_Y),
                momentum: (0, 0),
                tags: bird_tags,
            },
        );

        let ground_tags = TagSet::empty().with(Tag::Ground).with(Tag::Obstacle);
        proof {
            ground_tags.lemma_same_tags(ground_segment(1).tags);
        }
        let base_y: i64 = (FIELD_HEIGHT - BASE_HEIGHT) as i64;
        let mut slot: u8 = 0;
        let mut left: i64 = 0;
        while slot < GROUND_SEGMENTS
            invariant
                slot <= GROUND_SEGMENTS,
                left == slot * BASE_WIDTH,
                base_y == FIELD_HEIGHT - BASE_HEIGHT,
                ground_tags == ground_segment(1).tags,
                scene.wf(),
                scene@ == Self::opening_ground(slot),
            decreases GROUND_SEGMENTS - slot,
        {
            scene.insert(
                Entity {
                    id: EntityId::Base(slot + 1),
                    sprite: Sprite::Base,
                    size: (BASE_WIDTH, BASE_HEIGHT),
                    bounds: Bounds::around((BASE_WIDTH, BASE_HEIGHT)),
                    position: (left, base_y),
                    momentum: (0, 0),
                    tags: ground_tags,
                },
            );
            slot += 1;
            left += BASE_WIDTH as i64;
        }
        assert(scene@ == opening_scene()) by {
            reveal_with_fuel(MyApp::opening_ground, 5);
        }

        let mut rules: Vec<Rule> = Vec::new();
        rules.push(
            Rule {
                subject: Target::Entity(EntityId::Bird),
                trigger: Trigger::KeyPress(FLAP_KEY),
                action: Action::ApplyMomentum {
                    target: Target::Entity(EntityId::Bird),
                    tenths: (0, FLAP_IMPULSE_TENTHS),
                },
            },
        );
        rules.push(
            Rule {
                subject: Target::Entity(EntityId::Bird),
                trigger: Trigger::Collision(Target::Tagged(Tag::Obstacle)),
                action: Action::ApplyMomentum {
                    target: Target::Entity(EntityId::Bird),
                    tenths: (0, 0),
                },
            },
        );
        assert(rules@ =~= opening_rules());

        let pipe_manager = PipeManager::new(PIPE_WIDTH, PIPE_HEIGHT, GAP_SIZE, initial_size);
        let score_manager = ScoreManager::new(initial_size);
        Game {
            scene,
            canvas_size: initial_size,
            pipe_manager,
            score_manager,
            base_width: BASE_WIDTH,
            rules,
        }
    }

    /// The opening registry with the ground segments in the first `count` slots.
    pub open spec fn opening_ground(count: u8) -> Map<EntityId, Entity>
        decreases count,
    {
        if count == 0 {
            Map::<EntityId, Entity>::empty().insert(EntityId::Background, backdrop()).insert(
                EntityId::Bird,
                bird_at_start(),
            )
        } else {
            Self::opening_ground((count - 1) as u8).insert(
                EntityId::Base(count),
                ground_segment(count),
            )
        }
    }
}

} // verus!
