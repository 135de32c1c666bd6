use yunikod::blocks::{BlockKind, CoalOre, GoldOre, GrassTuft, IronOre, Rock, Sticks, Stones, Tree};
use yunikod::chunk::{cell_for, decoration_for, Chunk, Terrain};
use yunikod::entities::{Arrow, Bullet, Direction, EntityKind, Fire, Swing};
use yunikod::inventory::{Inventory, Recipe};
use yunikod::items::{Axe, Bow, Coal, DragonSoul, FlameThrower, Gold, Grass, Gun, Hand, Iron, ItemKind, OnyxHeart, Pickaxe, Stick, Stone, Wood};
use yunikod::lang::{ActLang, Locale, Messages};

fn kind_total(inv: &Inventory, item: ItemKind) -> u32 {
    inv.total_quantity(&item)
}

#[test]
fn collect_takes_one_life_and_never_below_zero() {
    let mut b = Rock::generate();
    assert_eq!(b.life(), 15);
    for n in 1..=15u32 {
        assert!(!b.is_destroyed());
        assert_eq!(b.collect(), ItemKind::Stone(Stone::new(2)));
        assert_eq!(b.life(), 15 - n);
    }
    assert!(b.is_destroyed());
    b.collect();
    assert_eq!(b.life(), 0);
    assert!(b.is_destroyed());
}

#[test]
fn yields_of_each_block() {
    assert_eq!(Tree::generate().collect(), ItemKind::Wood(Wood::new(2)));
    assert_eq!(GrassTuft::generate().collect(), ItemKind::Grass(Grass::new(2)));
    assert_eq!(GoldOre::generate().collect(), ItemKind::Gold(Gold::new(2)));
    assert_eq!(IronOre::generate().collect(), ItemKind::Iron(Iron::new(2)));
    assert_eq!(CoalOre::generate().collect(), ItemKind::Coal(Coal::new(2)));
    assert_eq!(Sticks::generate().collect(), ItemKind::Stick(Stick::new(1)));
    assert_eq!(BlockKind::Stones(Stones::new()).collect(), ItemKind::Stone(Stone::new(1)));
    let mut tuft = GrassTuft::generate();
    tuft.collect();
    assert!(tuft.is_destroyed());
}

#[test]
fn tool_compatibility() {
    let pick = ItemKind::Pickaxe(Pickaxe::new(1));
    let axe = ItemKind::Axe(Axe::new());
    let hand = ItemKind::Hand(Hand::new(1));
    assert!(Rock::generate().is_compatible_tool(pick));
    assert!(!Rock::generate().is_compatible_tool(axe));
    assert!(!Rock::generate().is_compatible_tool(hand));
    assert!(Tree::generate().is_compatible_tool(axe));
    assert!(!Tree::generate().is_compatible_tool(pick));
    assert!(Sticks::generate().is_compatible_tool(axe));
    assert!(!Sticks::generate().is_compatible_tool(hand));
    assert!(GrassTuft::generate().is_compatible_tool(hand));
    assert!(GrassTuft::generate().is_compatible_tool(ItemKind::Wood(Wood::new(1))));
    assert!(IronOre::generate().is_compatible_tool(pick));
    assert!(!GoldOre::generate().is_compatible_tool(hand));
    assert!(!CoalOre::generate().is_compatible_tool(axe));
    let rubble = BlockKind::Stones(Stones::new());
    assert!(rubble.is_compatible_tool(hand));
    assert!(rubble.is_compatible_tool(pick));
    assert!(!rubble.is_compatible_tool(axe));
}

#[test]
fn rubble_life_is_drawn_in_range() {
    for _ in 0..200 {
        match Stones::generate() {
            BlockKind::Stones(s) => assert!(1 <= s.life && s.life <= 4),
            _ => panic!("not rubble"),
        }
    }
}

#[test]
fn change_quantity_clamps_and_returns_remainder() {
    let mut s = ItemKind::Stone(Stone::new(8));
    assert_eq!(s.change_quantity(5), 3);
    assert_eq!(s.quantity(), 10);
    assert_eq!(s.change_quantity(-4), 0);
    assert_eq!(s.quantity(), 6);
    assert_eq!(s.change_quantity(-9), -3);
    assert_eq!(s.quantity(), 0);
    let mut h = ItemKind::Hand(Hand::new(1));
    assert_eq!(h.change_quantity(-1), 0);
    assert_eq!(h.quantity(), 0);
    assert_eq!(h.change_quantity(3), 2);
    assert_eq!(h.quantity(), 1);
    let mut empty_hand = ItemKind::Hand(Hand::new(0));
    assert_eq!(empty_hand.change_quantity(1), 0);
    assert_eq!(empty_hand.quantity(), 1);
}

#[test]
fn item_facts() {
    assert_eq!(ItemKind::Stick(Stick::new(1)).max_quantity(), 20);
    assert_eq!(ItemKind::Stone(Stone::new(1)).max_quantity(), 10);
    assert_eq!(ItemKind::Axe(Axe::new()).max_quantity(), 1);
    assert_eq!(ItemKind::Hand(Hand::new(1)).damage(), 1);
    assert_eq!(ItemKind::Pickaxe(Pickaxe::new(1)).damage(), 2);
    assert_eq!(ItemKind::Gold(Gold::new(1)).damage(), 0);
    assert_eq!(ItemKind::Bow(Bow::new()).name(), "bow");
    assert_eq!(ItemKind::OH(OnyxHeart::new()).name(), "onyx heart");
    assert_eq!(ItemKind::DS(DragonSoul::new()).name(), "dragon soul");
}

#[test]
fn utilize_puts_entities_into_the_world() {
    let at = (3i64, 4i64, Direction::Right);
    assert_eq!(ItemKind::Axe(Axe::new()).utilize(at), Some(EntityKind::Swing(Swing::new(3, 4, Direction::Right, 10))));
    assert_eq!(ItemKind::Bow(Bow::new()).utilize(at), Some(EntityKind::Arrow(Arrow::new(3, 4, Direction::Right, 5))));
    assert_eq!(ItemKind::DS(DragonSoul::new()).utilize(at), Some(EntityKind::Fire(Fire::new(3, 4, Direction::Right))));
    assert_eq!(ItemKind::OH(OnyxHeart::new()).utilize(at), Some(EntityKind::Bullet(Bullet::new(3, 4, Direction::Right))));
    assert_eq!(ItemKind::Stone(Stone::new(1)).utilize(at), None);
    assert_eq!(ItemKind::Hand(Hand::new(1)).utilize(at), None);
    assert_eq!(FlameThrower.utilize(1, 1, Direction::Up), EntityKind::Fire(Fire::new(1, 1, Direction::Up)));
    assert_eq!(Gun.utilize(1, 1, Direction::Up), EntityKind::Bullet(Bullet::new(1, 1, Direction::Up)));
}

#[test]
fn add_merges_then_opens_new_stack() {
    let mut inv = Inventory::new_player();
    inv.add(ItemKind::Stone(Stone::new(6)));
    assert_eq!(inv.len(), 2);
    inv.add(ItemKind::Stone(Stone::new(3)));
    assert_eq!(inv.len(), 2);
    assert_eq!(*inv.get(1), ItemKind::Stone(Stone::new(9)));
    inv.add(ItemKind::Stone(Stone::new(4)));
    assert_eq!(inv.len(), 3);
    assert_eq!(*inv.get(1), ItemKind::Stone(Stone::new(10)));
    assert_eq!(*inv.get(2), ItemKind::Stone(Stone::new(3)));
    assert_eq!(kind_total(&inv, ItemKind::Stone(Stone::new(1))), 13);
    inv.add(ItemKind::Hand(Hand::new(1)));
    assert_eq!(inv.len(), 4);
    assert_eq!(kind_total(&inv, ItemKind::Hand(Hand::new(1))), 2);
    inv.add(ItemKind::Wood(Wood::new(0)));
    assert_eq!(inv.len(), 4);
}

#[test]
fn add_splits_beyond_one_stack() {
    let mut inv = Inventory::new();
    inv.add(ItemKind::Gold(Gold::new(2)));
    assert_eq!(inv.len(), 2);
    assert_eq!(*inv.get(0), ItemKind::Gold(Gold::new(1)));
    assert_eq!(*inv.get(1), ItemKind::Gold(Gold::new(1)));
    assert_eq!(ItemKind::Gold(Gold::new(1)).max_quantity(), 1);
    assert_eq!(ItemKind::Grass(Grass::new(1)).max_quantity(), 1);
    let mut s = Inventory::new();
    s.add(ItemKind::Stone(Stone::new(4)));
    s.add(ItemKind::Stone(Stone::new(25)));
    assert_eq!(s.len(), 3);
    assert_eq!(*s.get(0), ItemKind::Stone(Stone::new(10)));
    assert_eq!(*s.get(1), ItemKind::Stone(Stone::new(10)));
    assert_eq!(*s.get(2), ItemKind::Stone(Stone::new(9)));
    let mut g = ItemKind::Gold(Gold::new(1));
    assert_eq!(g.change_quantity(5), 5);
    assert_eq!(g.quantity(), 1);
}

#[test]
fn craft_without_enough_changes_nothing() {
    let mut inv = Inventory::new_player();
    inv.add(ItemKind::Stone(Stone::new(5)));
    inv.add(ItemKind::Stick(Stick::new(4)));
    assert!(!inv.can_craft(&Recipe::Pickaxe));
    assert_eq!(inv.craft(&Recipe::Pickaxe), "not enough");
    assert_eq!(inv.len(), 3);
    assert_eq!(*inv.get(1), ItemKind::Stone(Stone::new(5)));
    assert_eq!(*inv.get(2), ItemKind::Stick(Stick::new(4)));
}

#[test]
fn craft_from_exact_ingredients_leaves_one_stack() {
    let mut inv = Inventory::new();
    inv.add(ItemKind::Stone(Stone::new(5)));
    inv.add(ItemKind::Stick(Stick::new(5)));
    assert_eq!(inv.craft(&Recipe::Pickaxe), "crafting");
    assert_eq!(inv.len(), 1);
    assert_eq!(*inv.get(0), ItemKind::Pickaxe(Pickaxe::new(1)));
}

#[test]
fn decoration_first_draw_wins() {
    assert_eq!(decoration_for(true, true, true, 3), Some(Tree::generate()));
    assert_eq!(decoration_for(false, true, true, 3), Some(BlockKind::Stones(Stones { life: 3 })));
    assert_eq!(decoration_for(false, false, true, 3), Some(Sticks::generate()));
    assert_eq!(decoration_for(false, false, false, 3), None);
    assert_eq!(Fire::new(0, 0, Direction::Up).spread_odds(), (10, 4));
    assert_eq!(Fire { life: 5, ..Fire::new(0, 0, Direction::Up) }.spread_odds(), (5, 0));
}

#[test]
fn craft_takes_exactly_what_is_needed() {
    let mut inv = Inventory::new_player();
    inv.add(ItemKind::Stone(Stone::new(10)));
    inv.add(ItemKind::Stone(Stone::new(2)));
    inv.add(ItemKind::Stick(Stick::new(5)));
    assert!(inv.can_craft(&Recipe::Pickaxe));
    assert_eq!(inv.craft(&Recipe::Pickaxe), "crafting");
    assert_eq!(kind_total(&inv, ItemKind::Stone(Stone::new(1))), 7);
    assert_eq!(kind_total(&inv, ItemKind::Stick(Stick::new(1))), 0);
    assert_eq!(kind_total(&inv, ItemKind::Pickaxe(Pickaxe::new(1))), 1);
    assert_eq!(kind_total(&inv, ItemKind::Hand(Hand::new(1))), 1);
    assert_eq!(inv.len(), 4);
    assert_eq!(*inv.get(3), ItemKind::Pickaxe(Pickaxe::new(1)));
}

#[test]
fn recipes_and_needs() {
    assert_eq!(Recipe::recipes(), vec![Recipe::Pickaxe, Recipe::Axe, Recipe::Armor, Recipe::Arrow, Recipe::Boat, Recipe::Sword]);
    assert_eq!(Recipe::Armor.needs(), vec![(ItemKind::Iron(Iron::new(1)), 20)]);
    assert_eq!(Recipe::Axe.get_item(), ItemKind::Axe(Axe::new()));
    assert_eq!(Recipe::Pickaxe.get_item(), ItemKind::Pickaxe(Pickaxe::new(1)));
}

#[test]
fn noise_levels_map_to_bands() {
    let tree = Some(Tree::generate());
    assert_eq!(cell_for(40, tree), (Terrain::Stone, Some(Rock::generate())));
    assert_eq!(cell_for(39, tree), (Terrain::Stone, None));
    assert_eq!(cell_for(30, tree), (Terrain::Stone, None));
    assert_eq!(cell_for(29, tree), (Terrain::Grass, tree));
    assert_eq!(cell_for(10, tree), (Terrain::Grass, tree));
    assert_eq!(cell_for(9, tree), (Terrain::Grass, None));
    assert_eq!(cell_for(0, tree), (Terrain::Grass, None));
    assert_eq!(cell_for(-1, tree), (Terrain::Water, None));
    assert_eq!(cell_for(-25, tree), (Terrain::Water, None));
    assert_eq!(cell_for(-26, tree), (Terrain::DeepWater, None));
}

#[test]
fn generated_chunk_keeps_bands() {
    let mut levels = vec![20i64; 256];
    levels[0] = -100;
    levels[255] = 45;
    let c = Chunk::new(2, -3, &levels);
    assert_eq!((c.0, c.1), (2, -3));
    assert_eq!(*c.cell(0, 0), (Terrain::DeepWater, None));
    assert_eq!(*c.cell(15, 15), (Terrain::Stone, Some(Rock::generate())));
    for i in 0..16 {
        for j in 0..16 {
            if (i, j) != (0, 0) && (i, j) != (15, 15) {
                let (t, b) = *c.cell(i, j);
                assert_eq!(t, Terrain::Grass);
                match b {
                    None | Some(BlockKind::Tree(_)) | Some(BlockKind::Stones(_)) | Some(BlockKind::Sticks(_)) => {},
                    _ => panic!("not a decoration"),
                }
            }
        }
    }
}

#[test]
fn average_terrain_prefers_first_on_ties() {
    let mut levels = vec![5i64; 256];
    for k in 0..128 {
        levels[k] = -10;
    }
    let c = Chunk::from_levels(0, 0, &levels, &vec![None; 256]);
    assert_eq!(c.average_terrain(), Terrain::Water);
    levels[200] = 35;
    let c = Chunk::from_levels(0, 0, &levels, &vec![None; 256]);
    assert_eq!(c.average_terrain(), Terrain::Water);
    levels[0] = 35;
    levels[1] = 35;
    let c = Chunk::from_levels(0, 0, &levels, &vec![None; 256]);
    assert_eq!(c.average_terrain(), Terrain::Grass);
    let c = Chunk::from_levels(0, 0, &vec![-50i64; 256], &vec![None; 256]);
    assert_eq!(c.average_terrain(), Terrain::DeepWater);
}

#[test]
fn locale_and_messages() {
    assert_eq!(Locale::from_string("pt-BR"), Locale::Portuguese);
    assert_eq!(Locale::from_string("en-US"), Locale::English);
    assert_eq!(Locale::from_string("fr"), Locale::English);
    assert_eq!(Locale::from_string("p"), Locale::English);
    assert_eq!(Locale::Portuguese.to_string(), "pt");
    assert_eq!(Messages::MainMenuOpt1.translate(&Locale::Portuguese), "NOVO JOGO");
    assert_eq!(Messages::SettingsOpt2.translate(&Locale::English), "BACK");
    let mut l = ActLang::default();
    assert_eq!(l.lang(), "");
    l.lang_mut().push_str("pt");
    assert_eq!(l.lang(), "pt");
}
