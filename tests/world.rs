use yunikod::blocks::{BlockKind, Rock};
use yunikod::chunk::{cell_index, chunk_coord, Chunk, Terrain};
use yunikod::entities::{Crawler, Direction, EntityKind, Fire, Swing};
use yunikod::game::{Game, Notice};
use yunikod::items::{ItemKind, Pickaxe, Stone};
use yunikod::player::Player;

fn grass_chunk(col: i64, row: i64) -> Chunk {
    let levels = vec![5i64; 256];
    let decorations: Vec<Option<BlockKind>> = vec![None; 256];
    Chunk::from_levels(col, row, &levels, &decorations)
}

fn stone_total(p: &Player) -> i64 {
    let mut sum = 0i64;
    for i in 0..p.inventory.len() {
        if let ItemKind::Stone(s) = p.inventory.get(i) {
            sum += s.quantity as i64;
        }
    }
    sum
}

#[test]
fn rock_harvested_fifteen_times_by_pickaxe() {
    let mut game = Game::new();
    game.update_chunks(vec![grass_chunk(0, 0)]);
    assert_eq!(game.loaded_chunks().len(), 1);
    game.put_block(0, 1, Some(Rock::generate()));
    let mut player = Player::new(0, 0);
    player.inventory().add(ItemKind::Pickaxe(Pickaxe::new(1)));
    player.set_using(1);
    for n in 1..=15 {
        assert!(game.get_block(0, 1).is_some());
        let spawned = player.on_space(&mut game);
        assert!(spawned.is_none());
        assert_eq!(game.message(), Some(Notice::Collected(ItemKind::Stone(Stone::new(2)))));
        assert_eq!(stone_total(&player), 2 * n);
        if n < 15 {
            assert_eq!(game.get_block(0, 1).unwrap().life(), 15 - n as u32);
        }
    }
    assert!(game.get_block(0, 1).is_none());
    assert_eq!(stone_total(&player), 30);
}

#[test]
fn bare_hand_cannot_harvest_rock() {
    let mut game = Game::new();
    game.update_chunks(vec![grass_chunk(0, 0)]);
    game.put_block(0, 1, Some(Rock::generate()));
    let mut player = Player::new(0, 0);
    assert!(player.on_space(&mut game).is_none());
    assert_eq!(game.message(), Some(Notice::Incompatible));
    assert_eq!(game.get_block(0, 1).unwrap().life(), 15);
    assert_eq!(player.inventory.len(), 1);
}

#[test]
fn camera_follows_player_by_overflow() {
    let mut game = Game::new();
    game.set_bounds(20, 20);
    let mut player = Player::new(25, 0);
    assert_eq!(game.offset, (0, 0));
    game.on_tick(&mut player);
    assert_eq!(game.offset.0, (25 - 0) - 20 / 3);
    assert_eq!(game.offset.0, 19);
    assert_eq!(game.offset.1, 0);
}

#[test]
fn camera_stays_while_player_near_center() {
    let mut game = Game::new();
    game.set_bounds(20, 20);
    let mut player = Player::new(-6, 6);
    game.on_tick(&mut player);
    assert_eq!(game.offset, (0, 0));
    let mut player = Player::new(-10, 0);
    game.on_tick(&mut player);
    assert_eq!(game.offset, (-4, 0));
}

#[test]
fn fire_spreads_forward_for_sure_at_full_life() {
    let mut game = Game::new();
    game.spawn(EntityKind::Fire(Fire::new(5, 5, Direction::Up)));
    let mut player = Player::new(100, 100);
    game.on_tick(&mut player);
    let fires: Vec<Fire> = game
        .entities()
        .iter()
        .filter_map(|e| if let EntityKind::Fire(f) = e { Some(*f) } else { None })
        .collect();
    assert!(fires.iter().any(|f| f.x == 5 && f.y == 6 && f.life == 9));
    for f in &fires {
        let ahead = f.x == 5 && f.y == 6 && f.life == 9;
        let flank = (f.x == 4 || f.x == 6) && f.y == 5 && f.life == 5;
        assert!(ahead || flank);
        assert_eq!(f.looking, Direction::Up);
    }
    assert!(!fires.iter().any(|f| f.x == 5 && f.y == 5));
}

#[test]
fn fire_spread_positions_and_lives() {
    let f = Fire::new(5, 5, Direction::Up);
    let all = f.spread(true, true, true);
    assert_eq!(all.len(), 3);
    assert_eq!(all[0], EntityKind::Fire(Fire { x: 5, y: 6, looking: Direction::Up, life: 9, max_life: 10, damage: 5 }));
    assert_eq!(all[1], EntityKind::Fire(Fire { x: 4, y: 5, looking: Direction::Up, life: 5, max_life: 10, damage: 5 }));
    assert_eq!(all[2], EntityKind::Fire(Fire { x: 6, y: 5, looking: Direction::Up, life: 5, max_life: 10, damage: 5 }));
    let g = Fire::new(0, 0, Direction::Left);
    let side = g.spread(false, true, true);
    assert_eq!(side.len(), 2);
    assert_eq!(side[0], EntityKind::Fire(Fire { x: 0, y: -1, looking: Direction::Left, life: 5, max_life: 10, damage: 5 }));
    assert_eq!(side[1], EntityKind::Fire(Fire { x: 0, y: 1, looking: Direction::Left, life: 5, max_life: 10, damage: 5 }));
    assert!(g.spread(false, false, false).is_empty());
}

#[test]
fn dead_entity_removed_after_tick() {
    let mut game = Game::new();
    game.spawn(EntityKind::Crawler(Crawler::new(0, 1)));
    game.spawn(EntityKind::Swing(Swing::new(0, 1, Direction::Up, 10)));
    let mut player = Player::new(100, 100);
    game.on_tick(&mut player);
    assert!(!game.entities().iter().any(|e| matches!(e, EntityKind::Crawler(c) if c.x == 0 && c.y == 1)));
    assert!(game.entities().iter().any(|e| matches!(e, EntityKind::Swing(s) if s.life == 2)));
    assert!(game.entities().iter().all(|e| !e.is_dead()));
    assert_eq!(game.message(), Some(Notice::Took(0, 10)));
}

#[test]
fn chunk_kept_aside_returns_with_its_edits() {
    let mut game = Game::new();
    game.update_chunks(vec![grass_chunk(0, 0)]);
    game.put_block(3, 4, Some(Rock::generate()));
    game.put_block(5, 5, Some(Rock::generate()));
    game.destroy_block(3, 4);
    assert!(game.get_block(3, 4).is_none());
    game.offset = (1000, 1000);
    game.update_chunks(Vec::new());
    assert_eq!(game.loaded_chunks().len(), 0);
    assert_eq!(game.unused_chunks().len(), 1);
    assert_eq!(game.get_tile(5, 5), Terrain::Grass);
    assert!(game.get_block(5, 5).is_none());
    game.offset = (0, 0);
    assert!(game.missing_chunks().is_empty());
    game.update_chunks(vec![Chunk::from_levels(0, 0, &vec![50i64; 256], &vec![None; 256])]);
    assert_eq!(game.loaded_chunks().len(), 1);
    assert_eq!(game.unused_chunks().len(), 0);
    assert!(game.get_block(3, 4).is_none());
    assert_eq!(game.get_block(5, 5).unwrap().life(), 15);
    assert_eq!(game.get_tile(5, 5), Terrain::Grass);
}

#[test]
fn missing_chunks_cover_window() {
    let mut game = Game::new();
    game.set_bounds(1, 1);
    let missing = game.missing_chunks();
    assert_eq!(missing.len(), 4);
    for p in [(-1, -1), (-1, 0), (0, -1), (0, 0)] {
        assert!(missing.contains(&p));
    }
    game.update_chunks(vec![grass_chunk(-1, -1), grass_chunk(0, 0), grass_chunk(7, 7)]);
    assert_eq!(game.loaded_chunks().len(), 2);
    assert_eq!(game.missing_chunks().len(), 2);
}

#[test]
fn unloaded_cell_reads_as_grass() {
    let game = Game::new();
    assert_eq!(game.get_tile(-40, 77), Terrain::Grass);
    assert!(game.get_block(-40, 77).is_none());
    assert!(game.is_available(-40, 77));
}

#[test]
fn water_is_not_available() {
    let mut game = Game::new();
    game.update_chunks(vec![Chunk::from_levels(0, 0, &vec![-10i64; 256], &vec![None; 256])]);
    assert_eq!(game.get_tile(2, 2), Terrain::Water);
    assert!(!game.is_available(2, 2));
    let mut player = Player::new(2, 1);
    player.step(&game);
    assert_eq!((player.x, player.y), (2, 1));
}

#[test]
fn player_steps_onto_free_cell_only() {
    let mut game = Game::new();
    game.update_chunks(vec![grass_chunk(0, 0)]);
    let mut player = Player::new(1, 1);
    player.on_arrow(Direction::Right, false);
    assert!(player.is_moving());
    player.on_tick(&game);
    assert_eq!((player.x, player.y), (2, 1));
    game.spawn(EntityKind::Crawler(Crawler::new(3, 1)));
    player.step(&game);
    assert_eq!((player.x, player.y), (2, 1));
    player.on_arrow(Direction::Down, true);
    assert!(!player.is_moving());
    assert_eq!(player.looking(), Direction::Down);
}

#[test]
fn player_hits_entity_ahead() {
    let mut game = Game::new();
    game.spawn(EntityKind::Crawler(Crawler::new(0, 1)));
    let mut player = Player::new(0, 0);
    assert!(player.on_space(&mut game).is_none());
    assert_eq!(game.message(), Some(Notice::Dealt(1)));
    assert_eq!(game.entities()[0], EntityKind::Crawler(Crawler { life: 4, immunity: 10, ..Crawler::new(0, 1) }));
}

#[test]
fn pickaxe_swings_into_empty_cell() {
    let mut game = Game::new();
    let mut player = Player::new(0, 0);
    player.inventory().add(ItemKind::Pickaxe(Pickaxe::new(1)));
    player.set_using(1);
    player.look(Direction::Left);
    let spawned = player.on_space(&mut game);
    assert_eq!(spawned, Some(EntityKind::Swing(Swing::new(-1, 0, Direction::Left, 10))));
}

#[test]
fn cell_mapping_floors_negative_coordinates() {
    assert_eq!(chunk_coord(0), 0);
    assert_eq!(cell_index(0), 0);
    assert_eq!(chunk_coord(15), 0);
    assert_eq!(cell_index(15), 15);
    assert_eq!(chunk_coord(16), 1);
    assert_eq!(cell_index(16), 0);
    assert_eq!(chunk_coord(-1), -1);
    assert_eq!(cell_index(-1), 15);
    assert_eq!(chunk_coord(-16), -1);
    assert_eq!(cell_index(-16), 0);
    assert_eq!(chunk_coord(-17), -2);
    assert_eq!(cell_index(-17), 15);
    for x in -100i64..100 {
        assert_eq!(chunk_coord(x) * 16 + cell_index(x) as i64, x);
    }
    assert_eq!(chunk_coord(i64::MIN), i64::MIN / 16);
    assert_eq!(cell_index(i64::MAX), 15);
}

#[test]
fn player_hurt_twice_within_immunity_counts_once() {
    let mut player = Player::new(0, 0);
    player.hurt(10);
    assert_eq!(player.life(), 100);
    for _ in 0..20 {
        player.on_tick(&Game::new());
    }
    player.hurt(10);
    player.hurt(10);
    assert_eq!(player.life(), 90);
    player.heal(200);
    assert_eq!(player.life(), 100);
    let mut weak = Player { life: 3, immunity: 0, ..Player::new(0, 0) };
    weak.hurt(10);
    assert_eq!(weak.life(), 0);
    assert!(weak.is_dead());
}

#[test]
fn crawler_hurt_twice_within_immunity_counts_once() {
    let mut c = EntityKind::Crawler(Crawler::new(0, 0));
    c.hurt(2);
    c.hurt(2);
    assert_eq!(c.life(), 3);
    for _ in 0..10 {
        c.on_tick();
    }
    c.hurt(9);
    assert_eq!(c.life(), 0);
    assert!(c.is_dead());
}

#[test]
fn crawler_bites_adjacent_player() {
    let game = Game::new();
    let crawler = Crawler::new(0, 0);
    let mut player = Player { immunity: 0, ..Player::new(1, 0) };
    let action = crawler.act(&mut player, &game, 0);
    assert!(matches!(action, yunikod::entities::Action::Nothing));
    assert_eq!(player.life(), 92);
}

#[test]
fn crawler_chases_along_longer_axis() {
    let game = Game::new();
    let crawler = Crawler { until_next_step: 0, ..Crawler::new(0, 0) };
    let mut player = Player::new(5, 2);
    assert!(matches!(crawler.act(&mut player, &game, 0), yunikod::entities::Action::Move(1, 0)));
    let mut player = Player::new(-2, -5);
    assert!(matches!(crawler.act(&mut player, &game, 0), yunikod::entities::Action::Move(0, -1)));
    let mut far = Player::new(50, 50);
    assert!(matches!(crawler.act(&mut far, &game, 1), yunikod::entities::Action::Move(-1, 0)));
    assert!(matches!(crawler.act(&mut far, &game, 2), yunikod::entities::Action::Move(0, 1)));
    let waiting = Crawler::new(0, 0);
    assert!(matches!(waiting.act(&mut far, &game, 3), yunikod::entities::Action::Move(0, 0)));
    let mut e = EntityKind::Crawler(waiting);
    e.go(0, 1);
    assert_eq!((e.x(), e.y()), (0, 0));
}
