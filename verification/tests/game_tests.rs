use flappy_bird::ground::scroll_segment;
use flappy_bird::rules::{Action, Rule, Target, Trigger};
use flappy_bird::scene::{Bounds, Entity, EntityId, Scene, Sprite, Tag, TagSet};
use flappy_bird::{Game, MyApp};

// What the renderer does between two ticks: every entity moves by its momentum.
fn render(game: &mut Game) {
    for entity in game.scene().entities() {
        game.observe(
            entity.id,
            (entity.position.0 + entity.momentum.0, entity.position.1 + entity.momentum.1),
            entity.momentum,
        );
    }
}

fn position_of(game: &Game, id: EntityId) -> (i64, i64) {
    game.scene().get(id).unwrap().position
}

fn pipe_count(game: &Game) -> usize {
    game.scene()
        .entities()
        .iter()
        .filter(|entity| matches!(entity.id, EntityId::TopPipe(_) | EntityId::BottomPipe(_)))
        .count()
}

fn segment_at(slot: u8, x: i64) -> Entity {
    Entity {
        id: EntityId::Base(slot),
        sprite: Sprite::Base,
        size: (336, 112),
        bounds: Bounds::Radius(336),
        position: (x, 488),
        momentum: (0, 0),
        tags: TagSet::empty().with(Tag::Ground).with(Tag::Obstacle),
    }
}

#[test]
fn opening_scene_has_background_bird_and_ground() {
    let game = MyApp::new();
    let scene = game.scene();
    assert_eq!(scene.entities().len(), 6);
    assert_eq!(
        scene.get(EntityId::Background),
        Some(Entity {
            id: EntityId::Background,
            sprite: Sprite::Background,
            size: (800, 600),
            bounds: Bounds::Radius(800),
            position: (0, 0),
            momentum: (0, 0),
            tags: TagSet::empty().with(Tag::Background),
        })
    );
    assert_eq!(
        scene.get(EntityId::Bird),
        Some(Entity {
            id: EntityId::Bird,
            sprite: Sprite::Bird,
            size: (50, 35),
            bounds: Bounds::Radius(50),
            position: (200, 300),
            momentum: (0, 0),
            tags: TagSet::empty().with(Tag::Player).with(Tag::FlyingBird),
        })
    );
    assert_eq!(scene.get(EntityId::Base(1)), Some(segment_at(1, 0)));
    assert_eq!(scene.get(EntityId::Base(2)), Some(segment_at(2, 336)));
    assert_eq!(scene.get(EntityId::Base(3)), Some(segment_at(3, 672)));
    assert_eq!(scene.get(EntityId::Base(4)), Some(segment_at(4, 1008)));
    assert_eq!(game.canvas_size(), (800, 600));
    assert_eq!(game.pipe_manager().pipe_counter, 0);
    assert_eq!(game.pipe_manager().pipe_width, 50);
    assert_eq!(game.pipe_manager().pipe_height, 800);
    assert_eq!(game.pipe_manager().gap_size, 220);
    assert_eq!(game.score_manager().score, 0);
}

#[test]
fn opening_rules_are_flap_and_stop_on_hit() {
    let game = MyApp::new();
    let bird = Target::Entity(EntityId::Bird);
    assert_eq!(
        game.rules(),
        &vec![
            Rule {
                subject: bird,
                trigger: Trigger::KeyPress('w'),
                action: Action::ApplyMomentum { target: bird, tenths: (0, -105) },
            },
            Rule {
                subject: bird,
                trigger: Trigger::Collision(Target::Tagged(Tag::Obstacle)),
                action: Action::ApplyMomentum { target: bird, tenths: (0, 0) },
            },
        ]
    );
}

#[test]
fn a_tick_scrolls_the_ground_and_shows_the_score() {
    let mut game = MyApp::new();
    game.update_game(false);
    assert_eq!(position_of(&game, EntityId::Base(1)), (-3, 488));
    assert_eq!(position_of(&game, EntityId::Base(2)), (333, 488));
    assert_eq!(position_of(&game, EntityId::Base(3)), (669, 488));
    assert_eq!(position_of(&game, EntityId::Base(4)), (1005, 488));
    assert_eq!(position_of(&game, EntityId::Background), (0, 0));
    assert_eq!(position_of(&game, EntityId::Bird), (200, 300));
    let glyph = game.scene().get(EntityId::ScoreDigit(0)).unwrap();
    assert_eq!(glyph.sprite, Sprite::Digit(0));
    assert_eq!(glyph.position, (756, 20));
    assert!(!game.scene().contains(EntityId::ScoreDigit(1)));
    assert_eq!(game.pipe_manager().pipe_spawn_timer, 1);
}

#[test]
fn ground_segment_wraps_by_four_widths_when_it_passes_its_width() {
    let mut game = MyApp::new();
    // 336 / 3 = 112 ticks bring the first segment to -336, which is not yet beyond it
    for _ in 0..112 {
        game.update_game(false);
    }
    assert_eq!(position_of(&game, EntityId::Base(1)).0, -336);
    assert_eq!(position_of(&game, EntityId::Base(2)).0, 0);
    assert_eq!(position_of(&game, EntityId::Base(4)).0, 672);
    game.update_game(false);
    assert_eq!(position_of(&game, EntityId::Base(1)).0, -339 + 336 * 4);
    assert_eq!(position_of(&game, EntityId::Base(2)).0, -3);
    assert_eq!(position_of(&game, EntityId::Base(3)).0, 333);
    assert_eq!(position_of(&game, EntityId::Base(4)).0, 669);
    // the wrapped segment lies edge to edge behind the last one
    assert_eq!(position_of(&game, EntityId::Base(1)).0, 669 + 336);
}

#[test]
fn ground_stays_edge_to_edge_for_many_ticks() {
    let mut game = MyApp::new();
    for _ in 0..2000 {
        game.update_game(false);
        let mut xs: Vec<i64> =
            (1..=4u8).map(|slot| position_of(&game, EntityId::Base(slot)).0).collect();
        xs.sort();
        assert_eq!(xs[1] - xs[0], 336);
        assert_eq!(xs[2] - xs[1], 336);
        assert_eq!(xs[3] - xs[2], 336);
        assert!(xs[0] >= -336 && xs[0] <= 0);
    }
}

#[test]
fn scroll_segment_moves_wraps_and_skips() {
    let mut scene = Scene::new();
    scene.insert(segment_at(1, 0));
    scene.insert(segment_at(2, -333));
    scene.insert(segment_at(3, -334));
    scroll_segment(&mut scene, 1, 336);
    scroll_segment(&mut scene, 2, 336);
    scroll_segment(&mut scene, 3, 336);
    scroll_segment(&mut scene, 4, 336);
    assert_eq!(scene.get(EntityId::Base(1)), Some(segment_at(1, -3)));
    assert_eq!(scene.get(EntityId::Base(2)), Some(segment_at(2, -336)));
    assert_eq!(scene.get(EntityId::Base(3)), Some(segment_at(3, -337 + 1344)));
    assert!(!scene.contains(EntityId::Base(4)));
}

#[test]
fn scroll_segment_at_the_ends_of_the_number_range() {
    let mut scene = Scene::new();
    scene.insert(segment_at(1, i64::MIN));
    scene.insert(segment_at(2, i64::MAX));
    scroll_segment(&mut scene, 1, 1);
    scroll_segment(&mut scene, 2, u32::MAX);
    assert_eq!(scene.get(EntityId::Base(1)).unwrap().position.0, i64::MIN + 1);
    assert_eq!(scene.get(EntityId::Base(2)).unwrap().position.0, i64::MAX - 3);
}

#[test]
fn pairs_appear_every_120_ticks_of_play() {
    let mut game = MyApp::new();
    for tick in 1..=360u32 {
        game.update_game(false);
        render(&mut game);
        assert_eq!(game.pipe_manager().pipe_counter, tick / 120);
        assert_eq!(pipe_count(&game), 2 * (tick / 120) as usize);
    }
}

#[test]
fn a_spawned_pair_starts_right_of_the_field_and_is_swept_after_334_ticks() {
    let mut game = MyApp::new();
    for _ in 0..120 {
        game.update_game(false);
        render(&mut game);
    }
    // spawned at 900 and moved once by the renderer
    assert_eq!(position_of(&game, EntityId::TopPipe(0)).0, 897);
    assert_eq!(position_of(&game, EntityId::BottomPipe(0)).0, 897);
    for _ in 0..332 {
        game.update_game(false);
        render(&mut game);
    }
    assert_eq!(position_of(&game, EntityId::TopPipe(0)).0, -99);
    game.update_game(false);
    assert!(game.scene().contains(EntityId::TopPipe(0)));
    render(&mut game);
    assert_eq!(position_of(&game, EntityId::TopPipe(0)).0, -102);
    game.update_game(false);
    assert!(!game.scene().contains(EntityId::TopPipe(0)));
    assert!(!game.scene().contains(EntityId::BottomPipe(0)));
    assert!(game.scene().contains(EntityId::TopPipe(1)));
}

#[test]
fn the_bird_scores_each_pair_as_it_passes() {
    let mut game = MyApp::new();
    let mut scores: Vec<usize> = Vec::new();
    for _ in 0..1000 {
        game.update_game(false);
        render(&mut game);
        scores.push(game.score_manager().score);
    }
    // pair 0 appears at 900 on tick 120; 234 ticks later its centre, 900 - 3 * 234 + 25
    // = 223, lies left of the bird's centre 225 for the first time
    assert_eq!(scores[119 + 233], 0);
    assert_eq!(scores[119 + 234], 1);
    assert_eq!(scores[119 + 234 + 119], 1);
    assert_eq!(scores[119 + 234 + 120], 2);
    assert_eq!(scores[999], 6);
    for pair in scores.windows(2) {
        assert!(pair[1] == pair[0] || pair[1] == pair[0] + 1);
    }
}

#[test]
fn the_display_follows_the_score() {
    let mut game = MyApp::new();
    for _ in 0..354 {
        game.update_game(false);
        render(&mut game);
    }
    assert_eq!(game.score_manager().score, 1);
    let glyph = game.scene().get(EntityId::ScoreDigit(0)).unwrap();
    assert_eq!(glyph.sprite, Sprite::Digit(1));
    assert_eq!(glyph.position, (756, 20));
}

#[test]
fn a_collision_resets_the_run_within_the_tick() {
    let mut game = MyApp::new();
    for _ in 0..400 {
        game.update_game(false);
        render(&mut game);
    }
    game.observe(EntityId::Bird, (200, 455), (0, 7));
    assert_eq!(game.score_manager().score, 1);
    assert_eq!(game.pipe_manager().pipe_counter, 3);
    assert_eq!(pipe_count(&game), 6);
    let ground_before = position_of(&game, EntityId::Base(1));

    game.update_game(true);

    let bird = game.scene().get(EntityId::Bird).unwrap();
    assert_eq!(bird.position, (200, 300));
    assert_eq!(bird.momentum, (0, 0));
    assert_eq!(game.score_manager().score, 0);
    assert_eq!(game.pipe_manager().pipe_counter, 0);
    assert_eq!(game.pipe_manager().pipe_spawn_timer, 0);
    assert_eq!(pipe_count(&game), 0);
    let glyph = game.scene().get(EntityId::ScoreDigit(0)).unwrap();
    assert_eq!(glyph.sprite, Sprite::Digit(0));
    assert!(!game.scene().contains(EntityId::ScoreDigit(1)));
    // nothing else happens in the tick of a collision
    assert_eq!(position_of(&game, EntityId::Base(1)), ground_before);
    assert_eq!(game.scene().entities().len(), 7);
}

#[test]
fn a_run_after_a_reset_starts_from_scratch() {
    let mut game = MyApp::new();
    for _ in 0..400 {
        game.update_game(false);
        render(&mut game);
    }
    game.update_game(true);
    for tick in 1..=354u32 {
        game.update_game(false);
        render(&mut game);
        assert_eq!(game.pipe_manager().pipe_counter, tick / 120);
    }
    assert_eq!(game.score_manager().score, 1);
    assert!(game.scene().contains(EntityId::TopPipe(0)));
}

#[test]
fn collision_reset_twice_is_reset_once() {
    let mut game = MyApp::new();
    for _ in 0..300 {
        game.update_game(false);
        render(&mut game);
    }
    game.update_game(true);
    let after_once = game.scene().entities();
    game.update_game(true);
    assert_eq!(game.scene().entities(), after_once);
    assert_eq!(game.score_manager().score, 0);
    assert_eq!(game.pipe_manager().pipe_counter, 0);
    assert_eq!(game.pipe_manager().pipe_spawn_timer, 0);
    game.handle_game_over();
    assert_eq!(game.scene().entities(), after_once);
}

#[test]
fn check_collisions_reports_and_resets() {
    let mut game = MyApp::new();
    game.observe(EntityId::Bird, (200, 100), (0, 4));
    assert!(!game.check_collisions(false));
    assert_eq!(game.scene().get(EntityId::Bird).unwrap().position, (200, 100));
    assert!(!game.scene().contains(EntityId::ScoreDigit(0)));
    assert!(game.check_collisions(true));
    assert_eq!(game.scene().get(EntityId::Bird).unwrap().position, (200, 300));
    assert_eq!(game.scene().get(EntityId::Bird).unwrap().momentum, (0, 0));
    assert!(game.scene().contains(EntityId::ScoreDigit(0)));
}

#[test]
fn the_bird_is_kept_below_the_top_of_the_field() {
    let mut game = MyApp::new();
    game.observe(EntityId::Bird, (200, -7), (2, -10));
    game.update_game(false);
    let bird = game.scene().get(EntityId::Bird).unwrap();
    assert_eq!(bird.position, (200, 0));
    assert_eq!(bird.momentum, (2, 0));
}

#[test]
fn a_bird_on_the_top_edge_loses_its_vertical_momentum() {
    let mut game = MyApp::new();
    game.observe(EntityId::Bird, (200, 0), (0, -10));
    game.check_ceiling_collision();
    let bird = game.scene().get(EntityId::Bird).unwrap();
    assert_eq!(bird.position, (200, 0));
    assert_eq!(bird.momentum, (0, 0));
}

#[test]
fn a_bird_inside_the_field_or_below_it_is_left_alone() {
    let mut game = MyApp::new();
    game.observe(EntityId::Bird, (200, 1), (0, -10));
    game.check_ceiling_collision();
    assert_eq!(game.scene().get(EntityId::Bird).unwrap().position, (200, 1));
    assert_eq!(game.scene().get(EntityId::Bird).unwrap().momentum, (0, -10));
    game.observe(EntityId::Bird, (200, 5000), (0, 30));
    game.update_game(false);
    assert_eq!(game.scene().get(EntityId::Bird).unwrap().position, (200, 5000));
    assert_eq!(game.scene().get(EntityId::Bird).unwrap().momentum, (0, 30));
}

#[test]
fn observe_ignores_an_entity_that_is_not_registered() {
    let mut game = MyApp::new();
    let before = game.scene().entities();
    game.observe(EntityId::TopPipe(3), (1, 2), (3, 4));
    assert_eq!(game.scene().entities(), before);
}

#[test]
fn update_base_positions_moves_only_the_ground() {
    let mut game = MyApp::new();
    game.update_base_positions();
    assert_eq!(position_of(&game, EntityId::Base(1)), (-3, 488));
    assert_eq!(position_of(&game, EntityId::Base(4)), (1005, 488));
    assert_eq!(position_of(&game, EntityId::Bird), (200, 300));
    assert_eq!(game.scene().entities().len(), 6);
    assert_eq!(game.pipe_manager().pipe_spawn_timer, 0);
}
