use defess_nft_minting::constants::get_period_timestamp;
use defess_nft_minting::error::ErrorCode;
use defess_nft_minting::ledger::Ledger;
use defess_nft_minting::state::Identity;

const NOW: i64 = 1_000_000;

fn id(b: u8) -> Identity {
    Identity::new([b; 32])
}

fn fresh(gated: bool) -> Ledger {
    let mut l = Ledger::new(id(9), gated);
    assert_eq!(l.initialize_collection(id(1), 500), Ok(()));
    l
}

fn record(l: &mut Ledger, caller: u8, t: i64, user: &str, post: &str, likes: u64) -> Result<(), ErrorCode> {
    l.select_period_winner(&id(caller), t, user.to_string(), post.to_string(), likes, NOW)
}

fn periods(l: &Ledger) -> u64 {
    l.collection.as_ref().unwrap().total_periods
}

fn minted(l: &Ledger) -> u64 {
    l.collection.as_ref().unwrap().total_minted
}

#[test]
fn period_timestamp_rounds_down_to_boundary() {
    assert_eq!(get_period_timestamp(0), 0);
    assert_eq!(get_period_timestamp(1799), 0);
    assert_eq!(get_period_timestamp(1800), 1800);
    assert_eq!(get_period_timestamp(3599), 1800);
    assert_eq!(get_period_timestamp(1_700_000_123), 1_699_999_200);
}

#[test]
fn period_timestamp_truncates_toward_zero_for_negatives() {
    assert_eq!(get_period_timestamp(-1), 0);
    assert_eq!(get_period_timestamp(-1800), -1800);
    assert_eq!(get_period_timestamp(-1801), -1800);
}

#[test]
fn identity_comparison() {
    assert!(id(1).same_as(&id(1)));
    assert!(!id(1).same_as(&id(2)));
    let mut b = [1u8; 32];
    b[31] = 0;
    assert!(!id(1).same_as(&Identity::new(b)));
}

#[test]
fn create_sets_authority_and_zero_counters() {
    let l = fresh(true);
    let c = l.collection.as_ref().unwrap();
    assert_eq!(c.authority, id(1));
    assert_eq!(c.collection_name, "Daily Winners NFT Collection");
    assert_eq!(c.total_minted, 0);
    assert_eq!(c.total_periods, 0);
    assert_eq!(c.created_at, 500);
}

#[test]
fn create_twice_fails() {
    let mut l = fresh(true);
    assert_eq!(l.initialize_collection(id(2), 600), Err(ErrorCode::AlreadyInitialized));
    assert_eq!(l.collection.as_ref().unwrap().authority, id(1));
    assert_eq!(l.collection.as_ref().unwrap().created_at, 500);
}

#[test]
fn admit_without_collection_fails() {
    let mut l = Ledger::new(id(9), true);
    assert_eq!(record(&mut l, 1, 1800, "alice", "post1", 50), Err(ErrorCode::NotFound));
    assert!(l.winners.is_empty());
}

#[test]
fn full_certification_scenario() {
    let mut l = fresh(true);
    assert_eq!(record(&mut l, 1, 1800, "alice", "post1", 50), Ok(()));
    assert_eq!(periods(&l), 1);
    let w = l.get_winner(1800).unwrap();
    assert_eq!(w.winner_username, "alice");
    assert_eq!(w.post_id, "post1");
    assert_eq!(w.like_count, 50);
    assert!(!w.has_been_minted);

    assert_eq!(l.mint_winner_nft(&id(1), 1800, NOW + 5, true), Ok(()));
    assert!(l.get_winner(1800).unwrap().has_been_minted);
    assert_eq!(minted(&l), 1);
    let cert = l.get_certificate(&"post1".to_string()).unwrap();
    assert_eq!(cert.collection, id(9));
    assert_eq!(cert.winner_post_id, "post1");
    assert_eq!(cert.winner_username, "alice");
    assert_eq!(cert.like_count, 50);
    assert_eq!(cert.minted_at, NOW + 5);
    assert_eq!(cert.period_timestamp, 1800);

    assert_eq!(l.mint_winner_nft(&id(1), 1800, NOW + 6, true), Err(ErrorCode::AlreadyMinted));
    assert_eq!(minted(&l), 1);
    assert_eq!(periods(&l), 1);
    assert_eq!(l.certificates.len(), 1);
    assert!(l.get_winner(1800).unwrap().has_been_minted);
}

#[test]
fn second_admission_for_same_period_fails() {
    let mut l = fresh(true);
    assert_eq!(record(&mut l, 1, 1800, "alice", "post1", 50), Ok(()));
    assert_eq!(record(&mut l, 1, 1800, "bob", "post2", 70), Err(ErrorCode::PeriodTaken));
    assert_eq!(periods(&l), 1);
    assert_eq!(l.winners.len(), 1);
    assert_eq!(l.get_winner(1800).unwrap().winner_username, "alice");
}

#[test]
fn admission_by_non_authority_fails() {
    let mut l = fresh(true);
    assert_eq!(record(&mut l, 2, 1800, "alice", "post1", 50), Err(ErrorCode::InvalidAuthority));
    assert_eq!(periods(&l), 0);
    assert_eq!(l.get_winner(1800).err(), Some(ErrorCode::NotFound));
}

#[test]
fn misaligned_periods_are_rejected() {
    let mut l = fresh(true);
    for t in [1799i64, 3601, 1, 900, -1] {
        assert_eq!(record(&mut l, 1, t, "alice", "post1", 50), Err(ErrorCode::InvalidPeriod));
    }
    assert_eq!(periods(&l), 0);
}

#[test]
fn present_and_future_periods_are_rejected() {
    let mut l = fresh(true);
    let current = 36_000;
    let r = l.select_period_winner(&id(1), current, "a".to_string(), "p".to_string(), 1, current);
    assert_eq!(r, Err(ErrorCode::InvalidPeriod));
    let r = l.select_period_winner(&id(1), current + 1800, "a".to_string(), "p".to_string(), 1, current);
    assert_eq!(r, Err(ErrorCode::InvalidPeriod));
    let r = l.select_period_winner(&id(1), current - 1800, "a".to_string(), "p".to_string(), 1, current);
    assert_eq!(r, Ok(()));
}

#[test]
fn like_count_zero_fails_and_one_succeeds() {
    let mut l = fresh(true);
    assert_eq!(record(&mut l, 1, 1800, "alice", "post1", 0), Err(ErrorCode::InvalidLikeCount));
    assert_eq!(periods(&l), 0);
    assert_eq!(record(&mut l, 1, 1800, "alice", "post1", 1), Ok(()));
    assert_eq!(periods(&l), 1);
}

#[test]
fn username_bounds() {
    let mut l = fresh(true);
    assert_eq!(record(&mut l, 1, 1800, "", "post1", 5), Err(ErrorCode::InvalidUsername));
    let long = "u".repeat(33);
    assert_eq!(record(&mut l, 1, 1800, &long, "post1", 5), Err(ErrorCode::InvalidUsername));
    // Eleven three-byte characters take 33 bytes.
    let wide = "\u{20ac}".repeat(11);
    assert_eq!(record(&mut l, 1, 1800, &wide, "post1", 5), Err(ErrorCode::InvalidUsername));
    let max = "u".repeat(32);
    assert_eq!(record(&mut l, 1, 1800, &max, "post1", 5), Ok(()));
}

#[test]
fn post_id_bounds() {
    let mut l = fresh(true);
    assert_eq!(record(&mut l, 1, 1800, "alice", "", 5), Err(ErrorCode::InvalidPostId));
    let long = "p".repeat(65);
    assert_eq!(record(&mut l, 1, 1800, "alice", &long, 5), Err(ErrorCode::InvalidPostId));
    let max = "p".repeat(64);
    assert_eq!(record(&mut l, 1, 1800, "alice", &max, 5), Ok(()));
}

#[test]
fn validation_order_follows_checks() {
    let mut l = fresh(true);
    // Unauthorized comes before every input check.
    assert_eq!(record(&mut l, 2, 1799, "", "", 0), Err(ErrorCode::InvalidAuthority));
    assert_eq!(record(&mut l, 1, 1799, "", "", 0), Err(ErrorCode::InvalidPeriod));
    assert_eq!(record(&mut l, 1, 1800, "", "", 0), Err(ErrorCode::InvalidUsername));
    assert_eq!(record(&mut l, 1, 1800, "a", "", 0), Err(ErrorCode::InvalidPostId));
    assert_eq!(record(&mut l, 1, 1800, "a", "p", 0), Err(ErrorCode::InvalidLikeCount));
}

#[test]
fn same_post_in_another_period_fails() {
    let mut l = fresh(true);
    assert_eq!(record(&mut l, 1, 1800, "alice", "post1", 50), Ok(()));
    assert_eq!(record(&mut l, 1, 3600, "bob", "post1", 60), Err(ErrorCode::PostIdTaken));
    assert_eq!(periods(&l), 1);
}

#[test]
fn period_counter_overflow_is_reported() {
    let mut l = fresh(true);
    l.collection.as_mut().unwrap().total_periods = u64::MAX;
    assert_eq!(record(&mut l, 1, 1800, "alice", "post1", 50), Err(ErrorCode::CounterOverflow));
    assert!(l.winners.is_empty());
}

#[test]
fn certify_unknown_period_fails() {
    let mut l = fresh(true);
    assert_eq!(l.mint_winner_nft(&id(1), 1800, NOW, true), Err(ErrorCode::NotFound));
    let mut empty = Ledger::new(id(9), true);
    assert_eq!(empty.mint_winner_nft(&id(1), 1800, NOW, true), Err(ErrorCode::NotFound));
}

#[test]
fn certify_by_non_authority_depends_on_policy() {
    let mut gated = fresh(true);
    assert_eq!(record(&mut gated, 1, 1800, "alice", "post1", 50), Ok(()));
    assert_eq!(gated.mint_winner_nft(&id(2), 1800, NOW, true), Err(ErrorCode::InvalidAuthority));
    assert_eq!(minted(&gated), 0);
    assert!(!gated.get_winner(1800).unwrap().has_been_minted);

    let mut open = fresh(false);
    assert_eq!(record(&mut open, 1, 1800, "alice", "post1", 50), Ok(()));
    assert_eq!(open.mint_winner_nft(&id(2), 1800, NOW, true), Ok(()));
    assert_eq!(minted(&open), 1);
    assert_eq!(open.mint_winner_nft(&id(3), 1800, NOW, true), Err(ErrorCode::AlreadyMinted));
}

#[test]
fn issuer_failure_rolls_back() {
    let mut l = fresh(true);
    assert_eq!(record(&mut l, 1, 1800, "alice", "post1", 50), Ok(()));
    assert_eq!(l.mint_winner_nft(&id(1), 1800, NOW, false), Err(ErrorCode::IssuerFailure));
    assert_eq!(minted(&l), 0);
    assert!(l.certificates.is_empty());
    assert!(!l.get_winner(1800).unwrap().has_been_minted);
    assert!(l.get_certificate(&"post1".to_string()).is_none());
    assert_eq!(l.mint_winner_nft(&id(1), 1800, NOW, true), Ok(()));
    assert_eq!(minted(&l), 1);
}

#[test]
fn prepared_certificate_matches_record_and_changes_nothing() {
    let mut l = fresh(true);
    assert_eq!(record(&mut l, 1, 5400, "carol", "post9", 12), Ok(()));
    let cert = l.prepare_certificate(&id(1), 5400, 777).unwrap();
    assert_eq!(cert.winner_post_id, "post9");
    assert_eq!(cert.winner_username, "carol");
    assert_eq!(cert.like_count, 12);
    assert_eq!(cert.minted_at, 777);
    assert_eq!(cert.period_timestamp, 5400);
    assert_eq!(cert.collection, id(9));
    assert_eq!(minted(&l), 0);
    assert!(l.certificates.is_empty());
    assert_eq!(l.prepare_certificate(&id(1), 7200, 777).err(), Some(ErrorCode::NotFound));
}

#[test]
fn counters_track_many_periods() {
    let mut l = fresh(true);
    for k in 1..=5i64 {
        let post = format!("post{}", k);
        assert_eq!(record(&mut l, 1, 1800 * k, "user", &post, k as u64), Ok(()));
    }
    assert_eq!(periods(&l), 5);
    assert_eq!(l.mint_winner_nft(&id(1), 3600, NOW, true), Ok(()));
    assert_eq!(l.mint_winner_nft(&id(1), 9000, NOW, true), Ok(()));
    assert_eq!(minted(&l), 2);
    assert!(minted(&l) <= periods(&l));
    assert!(l.get_certificate(&"post2".to_string()).is_some());
    assert!(l.get_certificate(&"post5".to_string()).is_some());
    assert!(l.get_certificate(&"post1".to_string()).is_none());
}

#[test]
fn ledgers_built_by_operations_are_well_formed() {
    let mut l = Ledger::new(id(9), true);
    assert!(l.is_well_formed());
    assert_eq!(l.initialize_collection(id(1), 500), Ok(()));
    assert!(l.is_well_formed());
    assert_eq!(record(&mut l, 1, 1800, "alice", "post1", 50), Ok(()));
    assert_eq!(record(&mut l, 1, 3600, "bob", "post2", 20), Ok(()));
    assert!(l.is_well_formed());
    assert_eq!(l.mint_winner_nft(&id(1), 3600, NOW, true), Ok(()));
    assert!(l.is_well_formed());
}

#[test]
fn inconsistent_ledgers_are_detected() {
    let mut counts = fresh(true);
    assert_eq!(record(&mut counts, 1, 1800, "alice", "post1", 50), Ok(()));
    counts.collection.as_mut().unwrap().total_minted = 1;
    assert!(!counts.is_well_formed());

    let mut periods_off = fresh(true);
    assert_eq!(record(&mut periods_off, 1, 1800, "alice", "post1", 50), Ok(()));
    periods_off.collection.as_mut().unwrap().total_periods = 2;
    assert!(!periods_off.is_well_formed());

    let mut twin = fresh(true);
    assert_eq!(record(&mut twin, 1, 1800, "alice", "post1", 50), Ok(()));
    assert_eq!(record(&mut twin, 1, 3600, "bob", "post2", 50), Ok(()));
    twin.winners[1].period_timestamp = 1800;
    assert!(!twin.is_well_formed());

    let mut stray = fresh(true);
    assert_eq!(record(&mut stray, 1, 1800, "alice", "post1", 50), Ok(()));
    let cert = stray.prepare_certificate(&id(1), 1800, NOW).unwrap();
    stray.certificates.push(cert);
    assert!(!stray.is_well_formed());

    let mut orphan = Ledger::new(id(9), true);
    let cert = {
        let mut l = fresh(true);
        assert_eq!(record(&mut l, 1, 1800, "alice", "post1", 50), Ok(()));
        l.prepare_certificate(&id(1), 1800, NOW).unwrap()
    };
    orphan.certificates.push(cert);
    assert!(!orphan.is_well_formed());
}
