use predictify_hybrid::errors::Error;
use predictify_hybrid::market_id::{fnv1a, MarketIdGenerator, MAX_COUNTER};
use soroban_sdk::Env;

#[test]
fn build_market_id_formats_hash_and_counter() {
    let env = Env::default();
    let id = MarketIdGenerator::build_market_id(&env, 0, 42, &Vec::new());
    assert_eq!(id, "mkt_67981e01_000042");
    let wide = MarketIdGenerator::build_market_id(&env, 7, 1_234_567, &b"admin-xdr".to_vec());
    assert_eq!(wide, "mkt_34bd9702_1234567");
}

#[test]
fn different_admins_get_different_ids() {
    let env = Env::default();
    let a = MarketIdGenerator::build_market_id(&env, 3, 0, &b"admin-a".to_vec());
    let b = MarketIdGenerator::build_market_id(&env, 3, 0, &b"admin-b".to_vec());
    assert_ne!(a, b);
    assert!(a.starts_with("mkt_"));
    assert_eq!(a.len(), "mkt_".len() + 8 + 1 + 6);
}

#[test]
fn fnv1a_known_values() {
    assert_eq!(fnv1a(&Vec::new()), 0x811c_9dc5);
    assert_eq!(fnv1a(&b"a".to_vec()), 3_826_002_220);
}

#[test]
fn attempts_stop_at_limits() {
    assert_eq!(MarketIdGenerator::attempt_counter(5, false, 0), Ok(5));
    assert_eq!(MarketIdGenerator::attempt_counter(5, false, 9), Ok(14));
    assert_eq!(MarketIdGenerator::attempt_counter(5, false, 10), Err(Error::DuplicateMarketId));
    assert_eq!(MarketIdGenerator::attempt_counter(MAX_COUNTER + 1, false, 0), Err(Error::InvalidInput));
    assert_eq!(MarketIdGenerator::attempt_counter(MAX_COUNTER, false, 1), Err(Error::InvalidInput));
    assert_eq!(MarketIdGenerator::attempt_counter(5, true, 0), Err(Error::InvalidState));
}
