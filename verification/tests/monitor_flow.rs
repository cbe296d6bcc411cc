use amm_price_monitor::hub::FanOutHub;
use amm_price_monitor::monitor::decode_meteora_pool;
use amm_price_monitor::monitor::decode_orca_pool;
use amm_price_monitor::monitor::decode_raydium_pool;
use amm_price_monitor::monitor::derive_price;
use amm_price_monitor::monitor::process_tick;
use amm_price_monitor::monitor::MonitorError;
use amm_price_monitor::monitor::MonitorState;
use amm_price_monitor::monitor::VenueConfig;
use amm_price_monitor::monitor::VenueSample;
use amm_price_monitor::events::amm_info_from_reserves;
use amm_price_monitor::price::PRICE_SCALE;

fn raydium_config() -> VenueConfig {
    VenueConfig {
        symbol: "SOL/USDC".to_string(),
        source: "Raydium".to_string(),
        base_decimals: 9,
        quote_decimals: 6,
        bin_scale_scaled: 0,
    }
}

fn meteora_config() -> VenueConfig {
    VenueConfig {
        symbol: "SOL/USDC".to_string(),
        source: "Meteora".to_string(),
        base_decimals: 9,
        quote_decimals: 6,
        bin_scale_scaled: 1000 * PRICE_SCALE,
    }
}

#[test]
fn first_tick_reports_zero_change() {
    let cfg = raydium_config();
    let hub = FanOutHub::new(1000);
    let mut state = MonitorState::new();
    assert!(state.previous_price.is_none());
    let sample = VenueSample::Reserves { base_reserve: 2_000_000_000, quote_reserve: 300_000_000 };
    let event = process_tick(&cfg, &mut state, &hub, &sample, 42).unwrap();
    assert_eq!(event.price, 150 * PRICE_SCALE);
    assert_eq!(event.change_percent, 0);
    assert_eq!(event.symbol, "SOL/USDC");
    assert_eq!(event.source, "Raydium");
    assert_eq!(event.timestamp, 42);
    assert_eq!(event.base_reserve, 2_000_000_000);
    assert_eq!(event.quote_reserve, 300_000_000);
    assert_eq!(state.previous_price, Some(150 * PRICE_SCALE));
}

#[test]
fn second_tick_reports_exact_percent_change() {
    let cfg = raydium_config();
    let hub = FanOutHub::new(1000);
    let mut state = MonitorState::new();
    let first = VenueSample::Reserves { base_reserve: 1_000_000_000, quote_reserve: 100_000_000 };
    let ev1 = process_tick(&cfg, &mut state, &hub, &first, 1).unwrap();
    assert_eq!(ev1.price, 100 * PRICE_SCALE);
    let second = VenueSample::Reserves { base_reserve: 1_000_000_000, quote_reserve: 110_000_000 };
    let ev2 = process_tick(&cfg, &mut state, &hub, &second, 2).unwrap();
    assert_eq!(ev2.price, 110 * PRICE_SCALE);
    // 100 -> 110 is exactly +10 percent.
    assert_eq!(ev2.change_percent, (10 * PRICE_SCALE) as i128);
    assert_eq!(state.previous_price, Some(110 * PRICE_SCALE));
}

#[test]
fn events_flow_through_hub_to_subscriber() {
    let cfg = raydium_config();
    let hub = FanOutHub::new(1000);
    let mut rx = hub.subscribe();
    let mut state = MonitorState::new();
    let sample = VenueSample::Reserves { base_reserve: 2_000_000_000, quote_reserve: 300_000_000 };
    let returned = process_tick(&cfg, &mut state, &hub, &sample, 7).unwrap();
    let delivered = rx.try_recv().unwrap();
    assert_eq!(delivered, returned);
}

#[test]
fn publish_failure_still_caches_price() {
    // No subscriber: publishing reports a failure internally, yet the tick
    // succeeds and the cache moves on.
    let cfg = raydium_config();
    let hub = FanOutHub::new(1000);
    let mut state = MonitorState::new();
    let sample = VenueSample::Reserves { base_reserve: 2_000_000_000, quote_reserve: 300_000_000 };
    let event = process_tick(&cfg, &mut state, &hub, &sample, 7);
    assert!(event.is_ok());
    assert_eq!(state.previous_price, Some(150 * PRICE_SCALE));
}

#[test]
fn out_of_range_sample_skips_tick_and_keeps_cache() {
    let cfg = meteora_config();
    let hub = FanOutHub::new(1000);
    let mut state = MonitorState::new();
    let good = VenueSample::ActiveBin {
        active_id: 0,
        bin_step: 10,
        base_reserve: 1,
        quote_reserve: 1,
    };
    let ev = process_tick(&cfg, &mut state, &hub, &good, 1).unwrap();
    assert_eq!(ev.price, 1000 * PRICE_SCALE);
    let cached = state.previous_price;
    // Doubling per bin outgrows the 128-bit walk long before bin 1000.
    let bad = VenueSample::ActiveBin {
        active_id: 1000,
        bin_step: 10_000,
        base_reserve: 1,
        quote_reserve: 1,
    };
    let err = process_tick(&cfg, &mut state, &hub, &bad, 2).unwrap_err();
    assert_eq!(err, MonitorError::Derive);
    assert_eq!(state.previous_price, cached);
}

#[test]
fn deep_negative_bin_ticks_successfully() {
    // A realistic discretized-bin pool sits thousands of bins from zero; the
    // rounded walk derives it.
    let cfg = meteora_config();
    let hub = FanOutHub::new(1000);
    let mut state = MonitorState::new();
    let sample = VenueSample::ActiveBin {
        active_id: -500,
        bin_step: 10,
        base_reserve: 1,
        quote_reserve: 1,
    };
    let ev = process_tick(&cfg, &mut state, &hub, &sample, 1).unwrap();
    // (1.001)^-500 * 1000, scaled: a bit over 606.6 * 10^9.
    assert!(600_000_000_000 < ev.price && ev.price < 610_000_000_000);
    assert_eq!(state.previous_price, Some(ev.price));
}

#[test]
fn derive_price_dispatches_per_venue() {
    let cfg = raydium_config();
    let reserves = VenueSample::Reserves { base_reserve: 2_000_000_000, quote_reserve: 300_000_000 };
    assert_eq!(derive_price(&cfg, &reserves), Ok(150 * PRICE_SCALE));
    let sqrt = VenueSample::SqrtPrice {
        sqrt_price: 1u128 << 64,
        base_reserve: 1,
        quote_reserve: 1,
    };
    let orca_cfg = VenueConfig {
        symbol: "SOL/USDC".to_string(),
        source: "Orca".to_string(),
        base_decimals: 6,
        quote_decimals: 9,
        bin_scale_scaled: 0,
    };
    assert_eq!(derive_price(&orca_cfg, &sqrt), Ok(1000 * PRICE_SCALE));
    let bins = VenueSample::ActiveBin {
        active_id: 1,
        bin_step: 100,
        base_reserve: 1,
        quote_reserve: 1,
    };
    assert_eq!(derive_price(&meteora_config(), &bins), Ok(1_010_000_000_000));
}

#[test]
fn zero_base_reserve_derives_zero_price_then_zero_change() {
    let cfg = raydium_config();
    let hub = FanOutHub::new(1000);
    let mut state = MonitorState::new();
    let empty = VenueSample::Reserves { base_reserve: 0, quote_reserve: 300_000_000 };
    let ev = process_tick(&cfg, &mut state, &hub, &empty, 1).unwrap();
    assert_eq!(ev.price, 0);
    assert_eq!(state.previous_price, Some(0));
    // A zero baseline yields a zero change by policy, never a fault.
    let live = VenueSample::Reserves { base_reserve: 2_000_000_000, quote_reserve: 300_000_000 };
    let ev2 = process_tick(&cfg, &mut state, &hub, &live, 2).unwrap();
    assert_eq!(ev2.change_percent, 0);
}

#[test]
fn short_raydium_account_reports_length_and_preview() {
    let err = decode_raydium_pool(&vec![0xde, 0xad]).unwrap_err();
    assert_eq!(
        err,
        MonitorError::Decode { data_len: 2, preview: "dead".to_string() }
    );
}

#[test]
fn unrecognized_raydium_account_reports_preview_of_first_64_bytes() {
    // Long enough to pass the length gate, but not a valid pool layout.
    let data = vec![0xabu8; 700];
    let err = decode_raydium_pool(&data).unwrap_err();
    match err {
        MonitorError::Decode { data_len, preview } => {
            assert_eq!(data_len, 700);
            assert_eq!(preview.len(), 128);
            assert_eq!(preview, "ab".repeat(64));
        }
        other => panic!("unexpected error: {:?}", other),
    }
}

#[test]
fn well_formed_raydium_account_decodes() {
    // The venue layout is exactly 752 bytes; all zeros is a valid encoding.
    let data = vec![0u8; 752];
    let keys = decode_raydium_pool(&data).unwrap();
    assert_eq!(keys.coin_vault, vec![0u8; 32]);
    assert_eq!(keys.pc_vault, vec![0u8; 32]);
    assert_eq!(keys.coin_mint, vec![0u8; 32]);
    assert_eq!(keys.pc_mint, vec![0u8; 32]);
}

#[test]
fn preview_stops_at_sixty_four_bytes() {
    let err = decode_raydium_pool(&vec![0xffu8; 65]).unwrap_err();
    match err {
        MonitorError::Decode { data_len, preview } => {
            assert_eq!(data_len, 65);
            assert_eq!(preview, "ff".repeat(64));
        }
        other => panic!("unexpected error: {:?}", other),
    }
}

#[test]
fn short_meteora_account_is_rejected() {
    let err = decode_meteora_pool(&vec![1u8; 50]).unwrap_err();
    match err {
        MonitorError::Decode { data_len, preview } => {
            assert_eq!(data_len, 50);
            assert_eq!(preview, "01".repeat(50));
        }
        other => panic!("unexpected error: {:?}", other),
    }
}

#[test]
fn meteora_account_with_wrong_discriminator_is_rejected() {
    let data = vec![9u8; 1200];
    let err = decode_meteora_pool(&data).unwrap_err();
    match err {
        MonitorError::Decode { data_len, .. } => assert_eq!(data_len, 1200),
        other => panic!("unexpected error: {:?}", other),
    }
}

#[test]
fn well_formed_meteora_account_decodes() {
    let mut data = vec![33u8, 11, 49, 98, 181, 101, 177, 13];
    data.extend(std::iter::repeat(0u8).take(1200));
    let fields = decode_meteora_pool(&data).unwrap();
    assert_eq!(fields.active_id, 0);
    assert_eq!(fields.bin_step, 0);
    assert_eq!(fields.reserve_x, vec![0u8; 32]);
    assert_eq!(fields.reserve_y, vec![0u8; 32]);
}

#[test]
fn short_orca_account_is_rejected() {
    let err = decode_orca_pool(&vec![7u8; 10]).unwrap_err();
    match err {
        MonitorError::Decode { data_len, preview } => {
            assert_eq!(data_len, 10);
            assert_eq!(preview, "07".repeat(10));
        }
        other => panic!("unexpected error: {:?}", other),
    }
}

#[test]
fn well_formed_orca_account_decodes() {
    let data = vec![0u8; 653];
    let fields = decode_orca_pool(&data).unwrap();
    assert_eq!(fields.sqrt_price, 0);
    assert_eq!(fields.token_vault_a, vec![0u8; 32]);
    assert_eq!(fields.token_vault_b, vec![0u8; 32]);
}

#[test]
fn amm_info_carries_reserves_and_price() {
    let info = amm_info_from_reserves(
        "pool".to_string(),
        "base-mint".to_string(),
        "quote-mint".to_string(),
        2_000_000_000,
        300_000_000,
        9,
        6,
    )
    .unwrap();
    assert_eq!(info.price, 150 * PRICE_SCALE);
    assert_eq!(info.base_reserve, 2_000_000_000);
    assert_eq!(info.quote_reserve, 300_000_000);
    assert_eq!(info.pool_id, "pool");
    assert_eq!(info.base_mint, "base-mint");
    assert_eq!(info.quote_mint, "quote-mint");
}
