use pattrns::event::InstrumentId;
use pattrns::pool::{MixerId, PoolError, SampleHandle, SamplePool};

#[test]
fn a_new_pool_is_empty() {
    let pool = SamplePool::new();
    assert!(!pool.contains(InstrumentId(0)));
    assert_eq!(pool.sample(InstrumentId(0)), Err(PoolError::MediaFileNotFound));
    assert_eq!(pool.target_mixer(InstrumentId(0)), None);
}

#[test]
fn loaded_samples_get_ids_of_their_own() {
    let mut pool = SamplePool::new();
    assert_eq!(pool.load_sample(SampleHandle(40)), Ok(InstrumentId(0)));
    assert_eq!(pool.load_sample(SampleHandle(41)), Ok(InstrumentId(1)));
    assert_eq!(pool.sample(InstrumentId(0)), Ok(SampleHandle(40)));
    assert_eq!(pool.sample(InstrumentId(1)), Ok(SampleHandle(41)));
    assert_eq!(pool.sample(InstrumentId(40)), Err(PoolError::MediaFileNotFound));
    assert_eq!(pool.remove_sample(InstrumentId(0)), Some(SampleHandle(40)));
    assert_eq!(pool.remove_sample(InstrumentId(0)), None);
    assert_eq!(pool.remove_sample(InstrumentId(7)), None);
    // the id of a removed sample is not handed out again
    assert_eq!(pool.load_sample(SampleHandle(40)), Ok(InstrumentId(2)));
    assert!(!pool.contains(InstrumentId(0)));
    assert!(pool.contains(InstrumentId(1)));
    assert!(pool.contains(InstrumentId(2)));
    assert_eq!(pool.sample(InstrumentId(0)), Err(PoolError::MediaFileNotFound));
    assert_eq!(pool.sample(InstrumentId(2)), Ok(SampleHandle(40)));
}

#[test]
fn retained_samples_stay() {
    let mut pool = SamplePool::new();
    for handle in 0..6 {
        pool.load_sample(SampleHandle(10 * handle)).unwrap();
    }
    pool.retain_samples(|id: InstrumentId| id.0 % 2 == 1);
    for id in 0..6 {
        assert_eq!(pool.contains(InstrumentId(id)), id % 2 == 1);
    }
    // the samples that stay are the ones that were loaded
    assert_eq!(pool.sample(InstrumentId(1)), Ok(SampleHandle(10)));
    assert_eq!(pool.sample(InstrumentId(3)), Ok(SampleHandle(30)));
    assert_eq!(pool.sample(InstrumentId(5)), Ok(SampleHandle(50)));
    pool.retain_samples(|_: InstrumentId| true);
    assert!(pool.contains(InstrumentId(1)));
    pool.retain_samples(|_: InstrumentId| false);
    assert!(!pool.contains(InstrumentId(1)));
    assert_eq!(pool.load_sample(SampleHandle(0)), Ok(InstrumentId(6)));
}

#[test]
fn routings_are_set_and_unset() {
    let mut pool = SamplePool::new();
    let first = pool.load_sample(SampleHandle(0)).unwrap();
    let second = pool.load_sample(SampleHandle(1)).unwrap();
    pool.set_target_mixer(first, Some(MixerId(3)));
    pool.set_target_mixer(second, Some(MixerId(4)));
    assert_eq!(pool.target_mixer(first), Some(MixerId(3)));
    assert_eq!(pool.target_mixer(second), Some(MixerId(4)));
    pool.set_target_mixer(first, Some(MixerId(5)));
    assert_eq!(pool.target_mixer(first), Some(MixerId(5)));
    assert_eq!(pool.target_mixer(second), Some(MixerId(4)));
    pool.set_target_mixer(first, None);
    pool.set_target_mixer(first, None);
    assert_eq!(pool.target_mixer(first), None);
    assert_eq!(pool.target_mixer(second), Some(MixerId(4)));
    // removing a sample leaves its routing
    pool.remove_sample(second);
    assert_eq!(pool.target_mixer(second), Some(MixerId(4)));
    // a routing changes no sample
    assert_eq!(pool.sample(first), Ok(SampleHandle(0)));
    assert_eq!(pool.sample(second), Err(PoolError::MediaFileNotFound));
}

#[test]
fn clear_removes_samples_and_routings() {
    let mut pool = SamplePool::new();
    let id = pool.load_sample(SampleHandle(9)).unwrap();
    pool.set_target_mixer(id, Some(MixerId(1)));
    pool.clear();
    assert!(!pool.contains(id));
    assert_eq!(pool.target_mixer(id), None);
    assert_eq!(pool.load_sample(SampleHandle(9)), Ok(InstrumentId(1)));
}

#[test]
fn a_pool_runs_out_of_ids() {
    let mut pool = SamplePool::with_first_id(usize::MAX - 1);
    assert_eq!(pool.load_sample(SampleHandle(1)), Ok(InstrumentId(usize::MAX - 1)));
    assert_eq!(pool.load_sample(SampleHandle(2)), Err(PoolError::OutOfIds));
    assert_eq!(pool.load_sample(SampleHandle(3)), Err(PoolError::OutOfIds));
    assert!(pool.contains(InstrumentId(usize::MAX - 1)));
    assert!(!pool.contains(InstrumentId(usize::MAX)));
    assert_eq!(pool.sample(InstrumentId(usize::MAX - 1)), Ok(SampleHandle(1)));
}
