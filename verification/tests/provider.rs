use veloren_server::provider::{
    LoadError, PersistenceError, Provider, SaveLoop, SaveMsg, SaveStep, WorldFiles, WorldSource,
};
use veloren_server::terrain::{Block, Chunk, ChunkMeta, TerrainMap};

fn chunk(base: i32) -> Chunk {
    Chunk::new(base, Block::new(2, 1, 2, 3), Block::empty(), ChunkMeta::void())
}

fn provider() -> Provider {
    Provider::new(1337, Err(LoadError::MissingSeed))
}

#[test]
fn chunk_name_is_both_coordinates_in_decimal() {
    assert_eq!(Provider::chunk_name((3, 4)), "3_4");
    assert_eq!(Provider::chunk_name((0, 0)), "0_0");
    assert_eq!(Provider::chunk_name((-12, 340)), "-12_340");
    assert_eq!(Provider::chunk_name((10, -10)), "10_-10");
    assert_eq!(
        Provider::chunk_name((i32::MIN, i32::MAX)),
        format!("{}_{}", i32::MIN, i32::MAX)
    );
}

#[test]
fn load_needs_all_three_files() {
    assert_eq!(
        Provider::load(Some(vec![1]), Some(vec![2, 3]), Some(9)),
        Ok(WorldFiles { chunks: vec![1], locations: vec![2, 3], seed: 9 })
    );
    assert_eq!(Provider::load(None, Some(vec![]), Some(9)), Err(LoadError::MissingChunks));
    assert_eq!(Provider::load(None, None, None), Err(LoadError::MissingChunks));
    assert_eq!(Provider::load(Some(vec![]), None, Some(9)), Err(LoadError::MissingLocations));
    assert_eq!(Provider::load(Some(vec![]), None, None), Err(LoadError::MissingLocations));
    assert_eq!(Provider::load(Some(vec![]), Some(vec![]), None), Err(LoadError::MissingSeed));
}

#[test]
fn provider_falls_back_to_a_generated_world() {
    let provider = Provider::new(42, Provider::load(None, Some(vec![]), Some(9)));
    assert_eq!(provider.world, WorldSource::Generated(42));
    assert_eq!(provider.seed(), 42);
    let provider = Provider::new(42, Provider::load(Some(vec![7]), Some(vec![8]), Some(9)));
    assert_eq!(
        provider.world,
        WorldSource::Loaded(WorldFiles { chunks: vec![7], locations: vec![8], seed: 9 })
    );
    assert_eq!(provider.seed(), 9);
}

#[test]
fn save_buffer_keeps_the_last_chunk_of_a_key() {
    let mut provider = provider();
    provider.set_chunk((1, 1), chunk(1));
    provider.set_chunk((1, 1), chunk(2));
    provider.set_chunk((2, 2), chunk(3));
    let mut taken = provider.take_chunks();
    let mut entries = taken.drain();
    entries.sort_by_key(|e| e.0);
    assert_eq!(entries, vec![((1, 1), chunk(2)), ((2, 2), chunk(3))]);
    assert_eq!(provider.take_chunks().keys(), vec![]);
}

#[test]
fn save_loop_flushes_every_key_once() {
    let mut provider = provider();
    provider.set_chunk((1, 1), chunk(1));
    provider.set_chunk((1, 1), chunk(2));
    let mut save_loop = SaveLoop::new();
    assert_eq!(save_loop.wait_time, 1000);
    let step = save_loop.cycle(None, &mut provider);
    assert_eq!(step, SaveStep::Flush(vec![((1, 1), chunk(2))]));
    assert_eq!(save_loop.wait_time, 1000);
    let step = save_loop.cycle(None, &mut provider);
    assert_eq!(step, SaveStep::Flush(vec![]));
}

#[test]
fn save_loop_takes_a_new_rate_and_keeps_it() {
    let mut provider = provider();
    provider.set_chunk((0, 0), chunk(0));
    let mut save_loop = SaveLoop::new();
    let step = save_loop.cycle(Some(SaveMsg::RATE(250)), &mut provider);
    assert_eq!(step, SaveStep::Flush(vec![((0, 0), chunk(0))]));
    assert_eq!(save_loop.wait_time, 250);
    save_loop.cycle(None, &mut provider);
    assert_eq!(save_loop.wait_time, 250);
}

#[test]
fn save_loop_stops_on_end_and_leaves_the_buffer() {
    let mut provider = provider();
    provider.set_chunk((0, 0), chunk(0));
    let mut save_loop = SaveLoop::new();
    assert_eq!(save_loop.cycle(Some(SaveMsg::END), &mut provider), SaveStep::Stop);
    assert_eq!(save_loop.wait_time, 1000);
    assert_eq!(provider.take_chunks().keys(), vec![(0, 0)]);
}

#[test]
fn save_chunks_copies_the_chunks_of_the_keys() {
    let mut map = TerrainMap::new();
    map.insert((0, 0), chunk(0));
    map.insert((0, 1), chunk(1));
    map.insert((0, 2), chunk(2));
    let copies = Provider::save_chunks(&map, &vec![(0, 2), (0, 0)]);
    assert_eq!(copies, vec![((0, 2), chunk(2)), ((0, 0), chunk(0))]);
}

#[test]
fn try_save_chunks_needs_every_key_to_be_loaded() {
    let mut map = TerrainMap::new();
    map.insert((0, 0), chunk(0));
    map.insert((0, 1), chunk(1));
    assert_eq!(
        Provider::try_save_chunks(&map, &vec![(0, 1), (0, 0), (0, 1)]),
        Some(vec![((0, 1), chunk(1)), ((0, 0), chunk(0)), ((0, 1), chunk(1))])
    );
    assert_eq!(Provider::try_save_chunks(&map, &vec![(0, 1), (5, 5)]), None);
    assert_eq!(Provider::try_save_chunks(&map, &vec![]), Some(vec![]));
}

#[test]
fn get_chunk_takes_the_stored_chunk_or_asks_for_one() {
    let got = Provider::get_chunk((1, 2), Some(chunk(5)));
    match got {
        Ok((c, supplement)) => {
            assert_eq!(c, chunk(5));
            assert!(supplement.npcs.is_empty());
        }
        Err(_) => panic!("a stored chunk is handed on"),
    }
    assert_eq!(
        Provider::get_chunk((1, 2), None).err(),
        Some(PersistenceError::Read { key: (1, 2) })
    );
}

#[test]
fn chunk_that_could_not_be_written_waits_for_the_next_flush() {
    let mut provider = provider();
    assert_eq!(
        provider.write_failed((1, 1), chunk(1)),
        PersistenceError::Write { key: (1, 1) }
    );
    provider.set_chunk((2, 2), chunk(7));
    assert_eq!(
        provider.write_failed((2, 2), chunk(2)),
        PersistenceError::Write { key: (2, 2) }
    );
    let mut taken = provider.take_chunks();
    let mut entries = taken.drain();
    entries.sort_by_key(|e| e.0);
    assert_eq!(entries, vec![((1, 1), chunk(1)), ((2, 2), chunk(7))]);
}
