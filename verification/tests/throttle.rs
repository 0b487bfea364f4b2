use core_nft::stable::{RecordMap, Region};
use core_nft::throttle::{
    check_transfer_allowed, record_successful_transfer, status, throttle_records_valid,
    TransferThrottleError, TransferThrottleState, BURST_WINDOW_NS, COOLDOWN_NS,
    MAX_BURST_CALLS, MAX_SUCCESSFUL_TRANSFERS, TRANSFER_BURST_ERROR_CODE,
    TRANSFER_COOLDOWN_ERROR_CODE,
};
use ic_stable_structures::memory_manager::{MemoryId, MemoryManager};
use ic_stable_structures::{DefaultMemoryImpl, StableBTreeMap};

fn fresh_map() -> RecordMap {
    let manager = MemoryManager::init(DefaultMemoryImpl::default());
    let memory: Region = manager.get(MemoryId::new(0));
    RecordMap {
        map: StableBTreeMap::init(memory),
    }
}

#[test]
fn starts_cooldown_after_five_successful_transfers_and_resets_after_expiry() {
    let mut throttles = fresh_map();
    let token_id: u64 = 9_999_999;
    let mut now = BURST_WINDOW_NS + 1;

    for _ in 0..MAX_SUCCESSFUL_TRANSFERS {
        check_transfer_allowed(&mut throttles, token_id, now).unwrap();
        record_successful_transfer(&mut throttles, token_id, now);
        now = now.saturating_add(BURST_WINDOW_NS + 1);
    }

    let protected = status(&throttles, token_id, now);
    assert_eq!(protected.successful_transfers, MAX_SUCCESSFUL_TRANSFERS);
    let cooldown_until = protected.cooldown_until_ns.unwrap();
    assert_eq!(
        check_transfer_allowed(&mut throttles, token_id, now),
        Err(TransferThrottleError::Cooldown {
            retry_after_ns: cooldown_until
        })
    );

    check_transfer_allowed(&mut throttles, token_id, cooldown_until).unwrap();
    assert_eq!(status(&throttles, token_id, cooldown_until).successful_transfers, 0);
}

#[test]
fn blocks_a_short_burst_without_starting_a_cooldown() {
    let mut throttles = fresh_map();
    let token_id: u64 = 9_999_998;
    let now = BURST_WINDOW_NS + 1;

    for _ in 0..MAX_BURST_CALLS {
        check_transfer_allowed(&mut throttles, token_id, now).unwrap();
    }

    assert_eq!(
        check_transfer_allowed(&mut throttles, token_id, now),
        Err(TransferThrottleError::BurstLimit {
            retry_after_ns: now.saturating_add(BURST_WINDOW_NS)
        })
    );
    assert_eq!(status(&throttles, token_id, now).cooldown_until_ns, None);
}

#[test]
fn cooldown_ends_exactly_cooldown_after_the_fifth_transfer() {
    let mut throttles = fresh_map();
    let token_id: u64 = 7;
    let start = 10 * BURST_WINDOW_NS;
    let mut now = start;
    for _ in 0..MAX_SUCCESSFUL_TRANSFERS {
        record_successful_transfer(&mut throttles, token_id, now);
        now += 1;
    }
    let s = status(&throttles, token_id, now);
    assert_eq!(s.cooldown_until_ns, Some(now - 1 + COOLDOWN_NS));
}

#[test]
fn four_transfers_do_not_start_a_cooldown() {
    let mut throttles = fresh_map();
    for i in 0..4u64 {
        record_successful_transfer(&mut throttles, 3, 1_000 + i);
    }
    assert_eq!(status(&throttles, 3, 2_000).cooldown_until_ns, None);
    assert!(check_transfer_allowed(&mut throttles, 3, 2_000).is_ok());
}

#[test]
fn burst_window_reopens_after_it_runs_out() {
    let mut throttles = fresh_map();
    let now = 5 * BURST_WINDOW_NS;
    for _ in 0..MAX_BURST_CALLS {
        check_transfer_allowed(&mut throttles, 1, now).unwrap();
    }
    assert!(check_transfer_allowed(&mut throttles, 1, now + BURST_WINDOW_NS - 1).is_err());
    assert!(check_transfer_allowed(&mut throttles, 1, now + BURST_WINDOW_NS).is_ok());
}

#[test]
fn tokens_are_throttled_separately() {
    let mut throttles = fresh_map();
    for _ in 0..MAX_BURST_CALLS {
        check_transfer_allowed(&mut throttles, 1, 100).unwrap();
    }
    assert!(check_transfer_allowed(&mut throttles, 1, 100).is_err());
    assert!(check_transfer_allowed(&mut throttles, 2, 100).is_ok());
}

#[test]
fn error_codes_and_messages() {
    let c = TransferThrottleError::Cooldown { retry_after_ns: 1234 };
    let b = TransferThrottleError::BurstLimit { retry_after_ns: 0 };
    assert_eq!(c.error_code(), TRANSFER_COOLDOWN_ERROR_CODE);
    assert_eq!(b.error_code(), TRANSFER_BURST_ERROR_CODE);
    assert_eq!(c.message(), "TRANSFER_COOLDOWN retry_after_ns=1234");
    assert_eq!(b.message(), "TRANSFER_BURST_LIMIT retry_after_ns=0");
    let big = TransferThrottleError::Cooldown { retry_after_ns: u64::MAX };
    assert_eq!(big.message(), format!("TRANSFER_COOLDOWN retry_after_ns={}", u64::MAX));
}

#[test]
fn state_record_roundtrip() {
    let s = TransferThrottleState {
        successful_transfers: 0x0102,
        cooldown_until_ns: 0x0304_0506_0708_090a,
        burst_window_started_at_ns: 0x0b0c_0d0e_0f10_1112,
        burst_calls: 0x13,
    };
    let b = s.into_bytes();
    assert_eq!(b, (1u8..=0x13).collect::<Vec<u8>>());
    assert_eq!(TransferThrottleState::from_bytes(&b), s);
}

#[test]
fn store_holds_only_state_records() {
    let mut throttles = fresh_map();
    assert!(throttle_records_valid(&throttles));
    record_successful_transfer(&mut throttles, 5, 10);
    assert!(throttle_records_valid(&throttles));
    throttles.map.insert(6, vec![1, 2, 3]);
    assert!(!throttle_records_valid(&throttles));
}
