use yunikod::entities::{Action, Crawler, Direction, EntityKind, Fire, Snake};
use yunikod::game::Game;
use yunikod::player::Player;

#[test]
fn fire_at_low_life_never_spreads_sideways() {
    let f = Fire { life: 6, ..Fire::new(0, 0, Direction::Right) };
    for _ in 0..200 {
        match f.on_action() {
            Action::Spawn(v) => {
                assert!(v.len() <= 1);
                for e in v {
                    assert_eq!(e, EntityKind::Fire(Fire { x: 1, y: 0, life: 5, ..Fire::new(1, 0, Direction::Right) }));
                }
            }
            _ => panic!("fire always spawns"),
        }
    }
}

#[test]
fn burnt_out_fire_spawns_nothing() {
    let f = Fire { life: 0, ..Fire::new(0, 0, Direction::Down) };
    for _ in 0..50 {
        match f.on_action() {
            Action::Spawn(v) => assert!(v.is_empty()),
            _ => panic!("fire always spawns"),
        }
    }
}

#[test]
fn far_crawler_wanders_to_a_neighbour() {
    let game = Game::new();
    let ready = EntityKind::Crawler(Crawler { until_next_step: 0, ..Crawler::new(0, 0) });
    let mut player = Player::new(500, 500);
    let mut seen = [false; 4];
    for _ in 0..400 {
        match ready.on_action(0, &mut player, &game) {
            Action::Move(1, 0) => seen[0] = true,
            Action::Move(-1, 0) => seen[1] = true,
            Action::Move(0, 1) => seen[2] = true,
            Action::Move(0, -1) => seen[3] = true,
            _ => panic!("a free neighbour is always taken"),
        }
    }
    assert!(seen.iter().all(|s| *s));
    assert_eq!(player.life(), 100);
}

#[test]
fn remove_dead_keeps_order_of_living() {
    let mut game = Game::new();
    game.spawn(EntityKind::Crawler(Crawler::new(1, 1)));
    game.spawn(EntityKind::Fire(Fire { life: 0, ..Fire::new(2, 2, Direction::Up) }));
    game.spawn(EntityKind::Crawler(Crawler::new(3, 3)));
    game.remove_dead();
    assert_eq!(game.entities().len(), 2);
    assert_eq!(game.entities()[0], EntityKind::Crawler(Crawler::new(1, 1)));
    assert_eq!(game.entities()[1], EntityKind::Crawler(Crawler::new(3, 3)));
}

#[test]
fn wildlife_only_on_free_grass() {
    let mut game = Game::new();
    game.spawn_wildlife(4, 4);
    assert_eq!(game.entities().len(), 1);
    game.spawn_wildlife(4, 4);
    assert_eq!(game.entities().len(), 1);
    game.mut_entities().clear();
    assert!(game.entities().is_empty());
}

#[test]
fn projectiles_fly_and_wear_out() {
    let mut arrow = EntityKind::Arrow(yunikod::entities::Arrow::new(0, 0, Direction::Left, 5));
    arrow.on_tick();
    assert_eq!((arrow.x(), arrow.y(), arrow.life()), (-1, 0, 49));
    let mut swing = EntityKind::Swing(yunikod::entities::Swing::new(0, 0, Direction::Up, 10));
    for _ in 0..3 {
        swing.on_tick();
    }
    assert!(swing.is_dead());
    swing.on_tick();
    assert_eq!(swing.life(), 0);
    let mut edge = EntityKind::OnyxStone(yunikod::entities::OnyxStone::new(i64::MAX, 0, Direction::Right));
    edge.on_tick();
    assert_eq!(edge.x(), i64::MAX);
    assert_eq!(edge.looking_at(), (i64::MAX, 0, Direction::Right));
    assert!(!EntityKind::Fire(Fire::new(0, 0, Direction::Up)).collide(0, 0));
    assert!(EntityKind::Crawler(Crawler::new(0, 0)).collide(0, 0));
}

#[test]
fn notice_expires() {
    let mut game = Game::new();
    game.set_message(yunikod::game::Notice::Incompatible);
    let mut player = Player::new(1000, 1000);
    for _ in 0..19 {
        game.on_tick(&mut player);
    }
    assert!(game.message().is_some());
    game.on_tick(&mut player);
    assert!(game.message().is_none() || game.message() != Some(yunikod::game::Notice::Incompatible));
}

#[test]
fn snake_glides_half_a_cell_towards_player() {
    let game = Game::new();
    let s = Snake::new(0, 0, Direction::Up, 2);
    assert_eq!((s.x, s.y), (0, 0));
    let mut player = Player::new(5, 1);
    assert!(matches!(s.on_action(&mut player, &game), Action::Move(1, 0)));
    let mut player = Player::new(0, -3);
    assert!(matches!(s.on_action(&mut player, &game), Action::Move(0, -1)));
    let mut on_top = Player { immunity: 0, ..Player::new(0, 0) };
    assert!(matches!(s.on_action(&mut on_top, &game), Action::Nothing));
    assert_eq!(on_top.life(), 98);
    let mut moved = s;
    moved.go(1, 0);
    let mut player = Player::new(0, 0);
    assert!(matches!(moved.on_action(&mut player, &game), Action::Nothing));
}

#[test]
fn snake_steps_one_cell_when_free() {
    let mut game = Game::new();
    let mut s = Snake::new(2, 2, Direction::Right, 2);
    s.step(&game);
    assert_eq!((s.x, s.y), (6, 4));
    game.spawn(EntityKind::Crawler(Crawler::new(4, 2)));
    s.step(&game);
    assert_eq!((s.x, s.y), (6, 4));
    assert!(!s.is_dead());
}

#[test]
fn snake_takes_its_turn_in_the_world() {
    let mut game = Game::new();
    game.spawn(EntityKind::Snake(Snake::new(0, 0, Direction::Up, 2)));
    let mut player = Player::new(0, 7);
    game.on_tick(&mut player);
    let snake = game.entities().iter().find_map(|e| if let EntityKind::Snake(s) = e { Some(*s) } else { None }).unwrap();
    assert_eq!((snake.x, snake.y), (0, 1));
    assert_eq!(EntityKind::Snake(snake).y(), 0);
    let mut on_top = Player { immunity: 0, ..Player::new(0, 0) };
    game.on_tick(&mut on_top);
    assert_eq!(on_top.life(), 98);
}
