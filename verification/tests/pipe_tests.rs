use flappy_bird::pipe::{PipeManager, MIN_GAP_Y, PIPE_SPEED, SPAWN_INTERVAL_TICKS};
use flappy_bird::scene::{Bounds, Entity, EntityId, Scene, Sprite, Tag, TagSet};

fn standard_pipes() -> PipeManager {
    PipeManager::new(50, 800, 220, (800, 600))
}

fn drift(scene: &mut Scene) {
    for entity in scene.entities() {
        let moved = Entity {
            position: (
                entity.position.0 + entity.momentum.0,
                entity.position.1 + entity.momentum.1,
            ),
            ..entity
        };
        scene.insert(moved);
    }
}

fn pipe_at(id: EntityId, x: i64) -> Entity {
    Entity {
        id,
        sprite: Sprite::TopPipe,
        size: (50, 800),
        bounds: Bounds::Rect(50, 800),
        position: (x, 0),
        momentum: (PIPE_SPEED, 0),
        tags: TagSet::empty().with(Tag::Pipe).with(Tag::Obstacle),
    }
}

#[test]
fn new_manager_has_spawned_nothing() {
    let pipes = standard_pipes();
    assert_eq!(pipes.pipe_counter, 0);
    assert_eq!(pipes.pipe_spawn_timer, 0);
    assert_eq!(pipes.pipe_width, 50);
    assert_eq!(pipes.pipe_height, 800);
    assert_eq!(pipes.gap_size, 220);
    assert_eq!(pipes.canvas_size, (800, 600));
}

#[test]
fn gap_fits_exactly_when_the_range_is_not_empty() {
    assert!(PipeManager::gap_fits_field(220, (800, 600)));
    // 150 <= height - 112 - 110 - 10 holds from height 382 on
    assert!(PipeManager::gap_fits_field(220, (800, 382)));
    assert!(!PipeManager::gap_fits_field(220, (800, 381)));
    assert!(!PipeManager::gap_fits_field(220, (800, 0)));
    assert!(PipeManager::gap_fits_field(0, (0, 272)));
    assert!(!PipeManager::gap_fits_field(0, (0, 271)));
    assert!(!PipeManager::gap_fits_field(u32::MAX, (800, 600)));
    // an odd gap is halved to whole units
    assert!(PipeManager::gap_fits_field(221, (800, 382)));
}

#[test]
fn spawn_pair_at_places_both_pipes_around_the_gap() {
    let mut pipes = standard_pipes();
    let mut scene = Scene::new();
    pipes.spawn_pair_at(&mut scene, 200);
    assert_eq!(pipes.pipe_counter, 1);
    assert_eq!(pipes.pipe_spawn_timer, 0);
    let tags = TagSet::empty().with(Tag::Pipe).with(Tag::Obstacle);
    assert_eq!(
        scene.get(EntityId::TopPipe(0)),
        Some(Entity {
            id: EntityId::TopPipe(0),
            sprite: Sprite::TopPipe,
            size: (50, 800),
            bounds: Bounds::Rect(50, 800),
            position: (900, -710),
            momentum: (-3, 0),
            tags,
        })
    );
    assert_eq!(
        scene.get(EntityId::BottomPipe(0)),
        Some(Entity {
            id: EntityId::BottomPipe(0),
            sprite: Sprite::BottomPipe,
            size: (50, 800),
            bounds: Bounds::Rect(50, 800),
            position: (900, 310),
            momentum: (-3, 0),
            tags,
        })
    );
    assert_eq!(scene.entities().len(), 2);
}

#[test]
fn spawn_pair_at_the_ends_of_the_range() {
    let mut pipes = standard_pipes();
    let mut scene = Scene::new();
    pipes.spawn_pair_at(&mut scene, 150);
    pipes.spawn_pair_at(&mut scene, 368);
    assert_eq!(pipes.pipe_counter, 2);
    assert_eq!(scene.get(EntityId::TopPipe(0)).unwrap().position, (900, 150 - 110 - 800));
    assert_eq!(scene.get(EntityId::BottomPipe(0)).unwrap().position, (900, 260));
    assert_eq!(scene.get(EntityId::TopPipe(1)).unwrap().position, (900, 368 - 110 - 800));
    assert_eq!(scene.get(EntityId::BottomPipe(1)).unwrap().position, (900, 478));
}

#[test]
fn pair_indices_are_sequential() {
    let mut pipes = standard_pipes();
    let mut scene = Scene::new();
    for expected in 0..5u32 {
        assert_eq!(pipes.pipe_counter, expected);
        pipes.spawn_pipe_pair(&mut scene);
        assert!(scene.contains(EntityId::TopPipe(expected)));
        assert!(scene.contains(EntityId::BottomPipe(expected)));
        assert!(!scene.contains(EntityId::TopPipe(expected + 1)));
    }
    assert_eq!(pipes.pipe_counter, 5);
    assert_eq!(scene.entities().len(), 10);
}

#[test]
fn random_gap_lies_in_range_and_both_pipes_share_it() {
    let mut pipes = standard_pipes();
    let mut scene = Scene::new();
    for index in 0..200u32 {
        pipes.spawn_pipe_pair(&mut scene);
        let top = scene.get(EntityId::TopPipe(index)).unwrap();
        let bottom = scene.get(EntityId::BottomPipe(index)).unwrap();
        let gap_y = bottom.position.1 - 110;
        assert_eq!(top.position.1, gap_y - 110 - 800);
        assert!(MIN_GAP_Y <= gap_y && gap_y <= 368, "gap centre {}", gap_y);
        assert_eq!(top.position.0, 900);
        assert_eq!(bottom.position.0, 900);
        assert_eq!(top.momentum, (-3, 0));
        assert_eq!(bottom.momentum, (-3, 0));
    }
}

#[test]
fn random_gaps_differ_from_pair_to_pair() {
    let mut pipes = standard_pipes();
    let mut scene = Scene::new();
    let mut lowest = i64::MAX;
    let mut highest = i64::MIN;
    for index in 0..200u32 {
        pipes.spawn_pipe_pair(&mut scene);
        let gap_y = scene.get(EntityId::BottomPipe(index)).unwrap().position.1 - 110;
        lowest = lowest.min(gap_y);
        highest = highest.max(gap_y);
    }
    assert!(lowest < highest);
}

#[test]
fn single_point_range_always_gives_that_point() {
    // height 382 leaves exactly the centre 150
    let mut pipes = PipeManager::new(50, 800, 220, (800, 382));
    let mut scene = Scene::new();
    for index in 0..20u32 {
        pipes.spawn_pipe_pair(&mut scene);
        assert_eq!(scene.get(EntityId::BottomPipe(index)).unwrap().position.1, 260);
    }
}

#[test]
fn a_pair_appears_every_120_ticks_and_never_more_often() {
    let mut pipes = standard_pipes();
    let mut scene = Scene::new();
    for tick in 1..=600u32 {
        pipes.update(&mut scene);
        assert_eq!(pipes.pipe_counter, tick / SPAWN_INTERVAL_TICKS, "after tick {}", tick);
        assert_eq!(pipes.pipe_spawn_timer, tick % SPAWN_INTERVAL_TICKS);
        drift(&mut scene);
    }
    assert_eq!(pipes.pipe_counter, 5);
}

#[test]
fn the_first_pair_appears_on_tick_120() {
    let mut pipes = standard_pipes();
    let mut scene = Scene::new();
    for _ in 0..119 {
        pipes.update(&mut scene);
    }
    assert_eq!(pipes.pipe_counter, 0);
    assert_eq!(pipes.pipe_spawn_timer, 119);
    assert!(scene.entities().is_empty());
    pipes.update(&mut scene);
    assert_eq!(pipes.pipe_counter, 1);
    assert_eq!(pipes.pipe_spawn_timer, 0);
    assert!(scene.contains(EntityId::TopPipe(0)));
    assert!(scene.contains(EntityId::BottomPipe(0)));
}

#[test]
fn sweep_removes_a_pipe_only_beyond_the_margin() {
    let mut pipes = standard_pipes();
    let mut scene = Scene::new();
    pipes.spawn_pair_at(&mut scene, 200);
    pipes.spawn_pair_at(&mut scene, 200);
    // the threshold is -50 - 50 = -100
    scene.insert(pipe_at(EntityId::TopPipe(0), -100));
    scene.insert(pipe_at(EntityId::BottomPipe(0), -101));
    scene.insert(pipe_at(EntityId::TopPipe(1), -102));
    scene.insert(pipe_at(EntityId::BottomPipe(1), -99));
    pipes.remove_offscreen_pipes(&mut scene);
    assert!(scene.contains(EntityId::TopPipe(0)));
    assert!(!scene.contains(EntityId::BottomPipe(0)));
    assert!(!scene.contains(EntityId::TopPipe(1)));
    assert!(scene.contains(EntityId::BottomPipe(1)));
    assert_eq!(pipes.pipe_counter, 2);
}

#[test]
fn sweep_leaves_other_entities_and_unspawned_indices_alone() {
    let mut pipes = standard_pipes();
    let mut scene = Scene::new();
    pipes.spawn_pair_at(&mut scene, 200);
    scene.insert(pipe_at(EntityId::Base(1), -5000));
    scene.insert(pipe_at(EntityId::Bird, -5000));
    scene.insert(pipe_at(EntityId::TopPipe(7), -5000));
    pipes.remove_offscreen_pipes(&mut scene);
    assert!(scene.contains(EntityId::Base(1)));
    assert!(scene.contains(EntityId::Bird));
    assert!(scene.contains(EntityId::TopPipe(7)));
    assert!(scene.contains(EntityId::TopPipe(0)));
}

#[test]
fn a_pipe_spawned_at_900_is_swept_after_334_ticks() {
    let mut pipes = standard_pipes();
    let mut scene = Scene::new();
    pipes.spawn_pair_at(&mut scene, 250);
    assert_eq!(scene.get(EntityId::TopPipe(0)).unwrap().position.0, 900);
    for _ in 0..333 {
        drift(&mut scene);
        pipes.remove_offscreen_pipes(&mut scene);
    }
    assert_eq!(scene.get(EntityId::TopPipe(0)).unwrap().position.0, -99);
    assert_eq!(scene.get(EntityId::BottomPipe(0)).unwrap().position.0, -99);
    drift(&mut scene);
    assert_eq!(scene.get(EntityId::TopPipe(0)).unwrap().position.0, 900 - 1002);
    pipes.remove_offscreen_pipes(&mut scene);
    assert!(!scene.contains(EntityId::TopPipe(0)));
    assert!(!scene.contains(EntityId::BottomPipe(0)));
}

#[test]
fn reset_clears_every_pipe_and_starts_over() {
    let mut pipes = standard_pipes();
    let mut scene = Scene::new();
    scene.insert(pipe_at(EntityId::Bird, 200));
    for _ in 0..250 {
        pipes.update(&mut scene);
    }
    assert_eq!(pipes.pipe_counter, 2);
    assert_eq!(pipes.pipe_spawn_timer, 10);
    pipes.reset(&mut scene);
    assert_eq!(pipes.pipe_counter, 0);
    assert_eq!(pipes.pipe_spawn_timer, 0);
    assert_eq!(scene.entities().len(), 1);
    assert!(scene.contains(EntityId::Bird));
    assert_eq!(pipes.pipe_width, 50);
    assert_eq!(pipes.gap_size, 220);
}

#[test]
fn reset_twice_is_reset_once() {
    let mut pipes = standard_pipes();
    let mut scene = Scene::new();
    scene.insert(pipe_at(EntityId::Bird, 200));
    pipes.spawn_pair_at(&mut scene, 200);
    pipes.reset(&mut scene);
    let after_once = scene.entities();
    pipes.reset(&mut scene);
    assert_eq!(scene.entities(), after_once);
    assert_eq!(pipes.pipe_counter, 0);
    assert_eq!(pipes.pipe_spawn_timer, 0);
}

#[test]
fn indices_start_again_at_zero_after_reset() {
    let mut pipes = standard_pipes();
    let mut scene = Scene::new();
    pipes.spawn_pair_at(&mut scene, 200);
    pipes.spawn_pair_at(&mut scene, 200);
    pipes.reset(&mut scene);
    pipes.spawn_pair_at(&mut scene, 300);
    assert!(scene.contains(EntityId::TopPipe(0)));
    assert!(!scene.contains(EntityId::TopPipe(1)));
    assert_eq!(scene.get(EntityId::BottomPipe(0)).unwrap().position, (900, 410));
}
