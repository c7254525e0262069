use classics::block::{ID_LAVA_FLOWING, ID_STONE, ID_WATER_FLOWING, ID_WATER_STATIONARY};
use classics::level::{BlockUpdate, Level, LevelRules, WeatherType};
use classics::packet::server::ServerPacket;
use classics::rng::thread_rng;
use classics::tick::{sample_random_updates, tick, update_dirt, update_grass};
use classics::util::{get_relative_coords, neighbors, neighbors_full, neighbors_minus_up, neighbors_with_vertical_diagonals};

fn set_block_packet(p: &ServerPacket) -> (i16, i16, i16, u8) {
    match p {
        ServerPacket::SetBlock { x, y, z, block_type } => (*x, *y, *z, *block_type),
        other => panic!("expected SetBlock, got {:?}", other),
    }
}

#[test]
fn index_and_coordinates_round_trip() {
    let level = Level::new(4, 3, 5);
    let volume = 4 * 3 * 5;
    for x in 0..4 {
        for y in 0..3 {
            for z in 0..5 {
                let i = level.index(x, y, z);
                assert!(i < volume);
                assert_eq!(i, x + z * 4 + y * 4 * 5);
                assert_eq!(level.coordinates(i), (x, y, z));
            }
        }
    }
}

#[test]
fn new_level_defaults() {
    let level = Level::new(2, 3, 4);
    assert_eq!(level.blocks.len(), 24);
    assert!(level.blocks.iter().all(|b| *b == 0));
    assert_eq!(level.weather, WeatherType::Sunny);
    assert_eq!(
        level.rules,
        LevelRules { fluid_spread: true, random_tick_updates: 1000, grass_spread_chance: 2048 }
    );
    assert!(level.updates.is_empty() && level.awaiting_update.is_empty());
}

#[test]
fn set_and_get_block() {
    let mut level = Level::new(3, 3, 3);
    level.set_block(1, 2, 0, 7);
    assert_eq!(level.get_block(1, 2, 0), 7);
    assert_eq!(level.blocks[level.index(1, 2, 0)], 7);
    assert!(level.updates.is_empty());
}

#[test]
fn apply_updates_with_empty_queue_changes_nothing() {
    let mut level = Level::new(3, 3, 3);
    level.set_block(1, 1, 1, 5);
    level.insert_awaiting(4);
    let before = level.blocks.clone();
    let packets = level.apply_updates();
    assert!(packets.is_empty());
    assert_eq!(level.blocks, before);
    assert_eq!(level.awaiting_update, vec![4]);
}

#[test]
fn later_update_of_same_index_wins() {
    let mut level = Level::new(3, 3, 3);
    let i = level.index(1, 0, 2);
    level.queue_update(BlockUpdate { index: i, block: 4 });
    level.queue_update(BlockUpdate { index: i, block: 5 });
    let packets = level.apply_updates();
    assert_eq!(packets.len(), 1);
    assert_eq!(set_block_packet(&packets[0]), (1, 0, 2, 5));
    assert_eq!(level.blocks[i], 5);
    assert!(level.updates.is_empty());
}

#[test]
fn apply_updates_keeps_order_of_last_occurrences() {
    let mut level = Level::new(4, 1, 1);
    level.queue_update(BlockUpdate { index: 0, block: 1 });
    level.queue_update(BlockUpdate { index: 1, block: 2 });
    level.queue_update(BlockUpdate { index: 0, block: 3 });
    let packets = level.apply_updates();
    let got: Vec<_> = packets.iter().map(set_block_packet).collect();
    assert_eq!(got, vec![(1, 0, 0, 2), (0, 0, 0, 3)]);
}

#[test]
fn apply_updates_schedules_stationary_neighbours() {
    let mut level = Level::new(3, 3, 3);
    level.set_block(1, 1, 1, ID_WATER_STATIONARY);
    let i = level.index(2, 2, 2);
    level.queue_update(BlockUpdate { index: i, block: 0 });
    level.apply_updates();
    assert_eq!(level.awaiting_update, vec![level.index(1, 1, 1)]);
}

#[test]
fn awaiting_set_stays_sorted_and_deduplicated() {
    let mut level = Level::new(10, 1, 1);
    for i in [5, 2, 8, 2, 5, 0] {
        level.insert_awaiting(i);
    }
    assert_eq!(level.awaiting_update, vec![0, 2, 5, 8]);
}

#[test]
fn neighbour_lists_respect_bounds() {
    let level = Level::new(3, 3, 3);
    assert_eq!(neighbors(&level, 0, 0, 0), vec![(0, 1, 0), (1, 0, 0), (0, 0, 1)]);
    assert_eq!(neighbors_minus_up(&level, 1, 1, 1).len(), 5);
    assert_eq!(neighbors_minus_up(&level, 1, 1, 1)[0], (1, 0, 1));
    assert_eq!(neighbors_with_vertical_diagonals(&level, 1, 1, 1).len(), 12);
    assert_eq!(neighbors_full(&level, 1, 1, 1).len(), 27);
    assert_eq!(neighbors_full(&level, 0, 0, 0).len(), 8);
    assert_eq!(get_relative_coords(&level, 2, 0, 0, 1, 0, 0), None);
    assert_eq!(get_relative_coords(&level, 2, 0, 0, -2, 2, 1), Some((0, 2, 1)));
    assert_eq!(get_relative_coords(&level, 0, 0, 0, isize::MIN, 0, 0), None);
}

#[test]
fn fluid_spreads_on_its_tick() {
    let mut level = Level::new(5, 3, 5);
    level.set_block(2, 2, 2, ID_WATER_FLOWING);
    let i = level.index(2, 2, 2);
    level.insert_awaiting(i);
    let mut rng = thread_rng();
    let packets = tick(&mut level, 3, &mut rng);
    assert_eq!(level.get_block(2, 2, 2), ID_WATER_STATIONARY);
    for (x, y, z) in [(1, 2, 2), (3, 2, 2), (2, 2, 1), (2, 2, 3), (2, 1, 2)] {
        assert_eq!(level.get_block(x, y, z), ID_WATER_FLOWING, "at {:?}", (x, y, z));
    }
    assert_eq!(packets.len(), 6);
    assert_eq!(set_block_packet(&packets[0]), (2, 2, 2, ID_WATER_STATIONARY));
    assert!(level.updates.is_empty());
}

#[test]
fn fluid_waits_off_its_tick() {
    let mut level = Level::new(5, 3, 5);
    level.set_block(2, 2, 2, ID_WATER_FLOWING);
    let i = level.index(2, 2, 2);
    level.insert_awaiting(i);
    let mut rng = thread_rng();
    let packets = tick(&mut level, 4, &mut rng);
    assert!(packets.is_empty());
    assert_eq!(level.awaiting_update, vec![i]);
}

#[test]
fn water_meeting_lava_makes_stone() {
    let mut level = Level::new(2, 1, 1);
    level.set_block(0, 0, 0, ID_WATER_FLOWING);
    level.set_block(1, 0, 0, ID_LAVA_FLOWING);
    level.insert_awaiting(0);
    level.insert_awaiting(1);
    let mut rng = thread_rng();
    tick(&mut level, 3, &mut rng);
    assert_eq!(level.get_block(1, 0, 0), ID_STONE);
    assert_eq!(level.get_block(0, 0, 0), ID_WATER_STATIONARY);
}

#[test]
fn fluids_stay_when_spreading_is_off() {
    let mut level = Level::new(3, 3, 3);
    level.rules.fluid_spread = false;
    level.set_block(1, 1, 1, ID_WATER_FLOWING);
    level.insert_awaiting(level.index(1, 1, 1));
    let mut rng = thread_rng();
    let packets = tick(&mut level, 3, &mut rng);
    assert!(packets.is_empty());
    assert_eq!(level.get_block(1, 0, 1), 0);
}

#[test]
fn grass_spreads_to_open_dirt_when_certain() {
    let mut level = Level::new(3, 2, 1);
    level.rules.grass_spread_chance = 1;
    level.set_block(0, 0, 0, 2);
    level.set_block(1, 0, 0, 3);
    let g = level.index(0, 0, 0);
    let mut rng = thread_rng();
    update_grass(&mut level, g, &mut rng);
    assert_eq!(level.updates, vec![BlockUpdate { index: level.index(1, 0, 0), block: 2 }]);
    assert!(level.possible_random_updates.is_empty());
}

#[test]
fn dirt_wakes_nearby_grass() {
    let mut level = Level::new(3, 1, 1);
    level.set_block(0, 0, 0, 2);
    level.set_block(1, 0, 0, 3);
    level.set_block(2, 0, 0, 2);
    update_dirt(&mut level, 1);
    assert_eq!(level.possible_random_updates, vec![0, 2]);
}

#[test]
fn random_sampling_moves_at_most_the_rule_count() {
    let mut level = Level::new(10, 1, 1);
    level.rules.random_tick_updates = 3;
    for i in [1, 4, 4, 7, 9] {
        level.push_random_candidate(i);
    }
    let mut rng = thread_rng();
    let mut taken = sample_random_updates(&mut level, &mut rng);
    assert_eq!(taken.len(), 3);
    assert_eq!(level.possible_random_updates.len(), 2);
    let mut all: Vec<usize> = taken.clone();
    all.extend(level.possible_random_updates.iter().copied());
    all.sort();
    assert_eq!(all, vec![1, 4, 4, 7, 9]);
    taken.sort();
    taken.dedup();
    assert_eq!(level.awaiting_update, taken);
}

#[test]
fn random_sampling_stops_when_pool_runs_out() {
    let mut level = Level::new(10, 1, 1);
    level.push_random_candidate(3);
    let mut rng = thread_rng();
    let taken = sample_random_updates(&mut level, &mut rng);
    assert_eq!(taken, vec![3]);
    assert!(level.possible_random_updates.is_empty());
}

#[test]
fn weather_bytes() {
    assert_eq!(WeatherType::Raining.to_byte(), 1);
    assert_eq!(WeatherType::from_byte(2), WeatherType::Snowing);
    assert_eq!(WeatherType::from_byte(9), WeatherType::Sunny);
}
