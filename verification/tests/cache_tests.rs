use flashswap::errors::FlashSwapError;
use flashswap::state::FlashSwap;

const OWNER: u128 = 1;
const FACTORY: u128 = 99;

#[test]
fn new_starts_empty() {
    let fs = FlashSwap::new(FACTORY, OWNER);
    assert_eq!(fs.owner(), OWNER);
    assert_eq!(fs.factory(), FACTORY);
    assert_eq!(fs.read_cache(2, 3), None);
}

#[test]
fn add_then_lookup_both_orderings() {
    let mut fs = FlashSwap::new(FACTORY, OWNER);
    assert_eq!(fs.add_pair_to_cache(OWNER, 10, 2, 3, 5), Ok(()));
    assert_eq!(fs.read_cache(2, 3), Some((10, 5)));
    assert_eq!(fs.read_cache(3, 2), Some((10, 5)));
    assert_eq!(fs.read_cache(2, 4), None);
}

#[test]
fn remove_clears_both_orderings() {
    let mut fs = FlashSwap::new(FACTORY, OWNER);
    fs.add_pair_to_cache(OWNER, 10, 2, 3, 5).unwrap();
    fs.add_pair_to_cache(OWNER, 11, 3, 4, 7).unwrap();
    assert_eq!(fs.remove_pair_from_cache(OWNER, 2, 3), Ok(()));
    assert_eq!(fs.read_cache(2, 3), None);
    assert_eq!(fs.read_cache(3, 2), None);
    // The other pair is untouched.
    assert_eq!(fs.read_cache(4, 3), Some((11, 7)));
}

#[test]
fn add_overwrites_existing_entry() {
    let mut fs = FlashSwap::new(FACTORY, OWNER);
    fs.add_pair_to_cache(OWNER, 10, 2, 3, 5).unwrap();
    fs.add_pair_to_cache(OWNER, 12, 2, 3, 8).unwrap();
    assert_eq!(fs.read_cache(2, 3), Some((12, 8)));
    assert_eq!(fs.read_cache(3, 2), Some((12, 8)));
}

#[test]
fn cache_mutators_are_owner_only() {
    let mut fs = FlashSwap::new(FACTORY, OWNER);
    assert_eq!(fs.add_pair_to_cache(2, 10, 2, 3, 5), Err(FlashSwapError::CallerIsNotOwner));
    assert_eq!(fs.remove_pair_from_cache(2, 2, 3), Err(FlashSwapError::CallerIsNotOwner));
    assert_eq!(fs.read_cache(2, 3), None);
}

#[test]
fn set_owner_transfers_control() {
    let mut fs = FlashSwap::new(FACTORY, OWNER);
    assert_eq!(fs.set_owner(2, 2), Err(FlashSwapError::CallerIsNotOwner));
    assert_eq!(fs.set_owner(OWNER, 2), Ok(()));
    assert_eq!(fs.owner(), 2);
    assert_eq!(fs.add_pair_to_cache(OWNER, 10, 2, 3, 5), Err(FlashSwapError::CallerIsNotOwner));
    assert_eq!(fs.add_pair_to_cache(2, 10, 2, 3, 5), Ok(()));
}

#[test]
fn resolve_misses_then_records() {
    let mut fs = FlashSwap::new(FACTORY, OWNER);
    // Registry had nothing for the pair.
    assert_eq!(fs.get_pair_and_fee(2, 3, None), Err(FlashSwapError::PairNotFound));
    // Registry answered: the result is recorded under both orderings.
    assert_eq!(fs.get_pair_and_fee(2, 3, Some((10, 5))), Ok((10, 5)));
    assert_eq!(fs.read_cache(2, 3), Some((10, 5)));
    assert_eq!(fs.read_cache(3, 2), Some((10, 5)));
}

#[test]
fn resolve_is_idempotent_on_cached_pair() {
    let mut fs = FlashSwap::new(FACTORY, OWNER);
    assert_eq!(fs.get_pair_and_fee(2, 3, Some((10, 5))), Ok((10, 5)));
    // A second resolution needs no registry answer and returns the same
    // entry, whatever the registry would have said.
    assert_eq!(fs.get_pair_and_fee(2, 3, None), Ok((10, 5)));
    assert_eq!(fs.get_pair_and_fee(3, 2, Some((77, 9))), Ok((10, 5)));
    assert_eq!(fs.read_cache(2, 3), Some((10, 5)));
}

#[test]
fn get_pair_safe_never_resolves() {
    let fs = FlashSwap::new(FACTORY, OWNER);
    assert_eq!(fs.get_pair_safe(2, 3), Err(FlashSwapError::PairNotFound));
}

#[test]
fn draw_sweeps_to_owner() {
    let fs = FlashSwap::new(FACTORY, OWNER);
    let step = fs.draw(OWNER, 42, 500).unwrap();
    assert_eq!(step.token, 42);
    assert_eq!(step.to, OWNER);
    assert_eq!(step.amount, 500);
    assert_eq!(fs.draw(3, 42, 500), Err(FlashSwapError::CallerIsNotOwner));
}
