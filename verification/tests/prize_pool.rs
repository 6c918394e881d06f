use coretime_arcade::account::{AccountId, Transfer};
use coretime_arcade::prize_pool::{
    ContractError, Draw, DrawExecuted, Entry, EntrySubmitted, PauseChange, Paused, PoolInfo,
    PrizeClaimed, PrizePool, PrizePoolState, RakeWithdrawn, Unpaused,
};

fn admin() -> AccountId {
    AccountId::from([1u8; 32])
}

fn player() -> AccountId {
    AccountId::from([2u8; 32])
}

fn charlie() -> AccountId {
    AccountId::from([3u8; 32])
}

fn setup_contract() -> PrizePool {
    PrizePool::new(admin(), 500, player(), 100, 1_000_000_000_000)
}

#[test]
fn test_enter_jackpot() {
    let mut contract = setup_contract();

    let result = contract.enter_jackpot(player(), 100_000_000, 0);
    assert!(result.is_ok());

    let info = contract.get_pool_info();
    assert_eq!(info.entry_count, 1);
    assert_eq!(info.pool_balance, 95_000_000); // 100k - 5% rake
    assert_eq!(info.rake_balance, 5_000_000);
}

#[test]
fn test_entry_fee_too_high() {
    let mut contract = setup_contract();

    let result = contract.enter_jackpot(player(), 2_000_000_000_000, 0);
    assert_eq!(result, Err(ContractError::EntryFeeTooHigh));
}

#[test]
fn test_max_entries() {
    let mut contract = setup_contract();

    // Fill up to max entries (100)
    for _ in 0..100 {
        contract.enter_jackpot(player(), 100_000_000, 0).expect("entry should succeed");
    }

    // Next entry should fail
    let result = contract.enter_jackpot(player(), 100_000_000, 0);
    assert_eq!(result, Err(ContractError::MaxEntriesReached));
}

#[test]
fn test_pause_unpause() {
    let mut contract = setup_contract();

    contract.set_paused(admin(), true).expect("pause should succeed");

    let result = contract.enter_jackpot(player(), 100_000_000, 0);
    assert_eq!(result, Err(ContractError::Paused));

    contract.set_paused(admin(), false).expect("unpause should succeed");
}

#[test]
fn test_withdraw_rake() {
    let mut contract = setup_contract();

    // Enter jackpot
    contract.enter_jackpot(player(), 100_000_000, 0).expect("entry should succeed");

    // Withdraw rake
    let result = contract.withdraw_rake(admin(), true);
    assert!(result.is_ok());
    assert_eq!(result.unwrap().0, 5_000_000);

    let info = contract.get_pool_info();
    assert_eq!(info.rake_balance, 0);
}

#[test]
fn test_execute_draw_and_claim() {
    let mut contract = setup_contract();

    // Enter jackpot
    contract.enter_jackpot(player(), 100_000_000, 0).expect("entry should succeed");

    // Execute draw
    contract.execute_draw(admin(), 0, 0).expect("draw should succeed");

    // Get draw info
    let draw = contract.get_draw(0).expect("draw should exist");
    let winner = draw.winner;

    // Verify winner is not sentinel value
    assert_ne!(winner, AccountId::from([0u8; 32]));

    // Winner claims prize
    let result = contract.claim_prize(winner, 0, true);
    if result.is_err() {
        println!("Claim prize error: {:?}", result.as_ref().err());
    }
    assert!(result.is_ok());
    assert_eq!(result.unwrap().0, 95_000_000);
}

#[test]
fn new_pool_is_empty_and_open() {
    let contract = setup_contract();
    assert_eq!(
        contract.get_pool_info(),
        PoolInfo { pool_balance: 0, rake_balance: 0, entry_count: 0, draw_id: 0, is_paused: false }
    );
    assert_eq!(contract.get_entry(0), None);
    assert_eq!(contract.get_draw(0), None);
}

#[test]
fn entry_is_recorded_and_reported() {
    let mut contract = setup_contract();
    let (id, event) = contract.enter_jackpot(player(), 100_000_000, 17).unwrap();
    assert_eq!(id, 0);
    assert_eq!(
        event,
        EntrySubmitted {
            player: player(),
            entry_id: 0,
            entry_fee: 100_000_000,
            draw_id: 0,
            block_number: 17,
        }
    );
    let (id, _) = contract.enter_jackpot(charlie(), 3, 18).unwrap();
    assert_eq!(id, 1);
    assert_eq!(
        contract.get_entry(1),
        Some(Entry { player: charlie(), entry_fee: 3, draw_id: 0, block_number: 18 })
    );
    assert_eq!(contract.get_entry(2), None);
    // floor(3 * 500 / 10000) = 0: the whole small fee goes to the prize.
    let info = contract.get_pool_info();
    assert_eq!(info.pool_balance, 95_000_003);
    assert_eq!(info.rake_balance, 5_000_000);
    assert_eq!(info.entry_count, 2);
}

#[test]
fn rake_is_the_same_for_every_entry_of_a_draw() {
    let mut contract = setup_contract();
    for n in 1u128..=20 {
        contract.enter_jackpot(player(), 100_000_000, 0).unwrap();
        let info = contract.get_pool_info();
        assert_eq!(info.pool_balance, 95_000_000 * n);
        assert_eq!(info.rake_balance, 5_000_000 * n);
    }
}

#[test]
fn rake_rounds_down() {
    let mut contract = PrizePool::new(admin(), 333, player(), 10, u128::MAX);
    contract.enter_jackpot(player(), 10_001, 0).unwrap();
    // 10001 * 333 / 10000 = 333.0333
    let info = contract.get_pool_info();
    assert_eq!(info.rake_balance, 333);
    assert_eq!(info.pool_balance, 9_668);
}

#[test]
fn entry_errors_come_in_order() {
    let mut contract = setup_contract();
    assert_eq!(contract.enter_jackpot(admin(), 0, 0), Err(ContractError::Unauthorized));
    assert_eq!(contract.enter_jackpot(player(), 0, 0), Err(ContractError::InvalidEntryFee));
    assert_eq!(
        contract.enter_jackpot(player(), 1_000_000_000_001, 0),
        Err(ContractError::EntryFeeTooHigh)
    );
    assert!(contract.enter_jackpot(player(), 1_000_000_000_000, 0).is_ok());
    contract.set_paused(admin(), true).unwrap();
    // Paused comes before everything else.
    assert_eq!(contract.enter_jackpot(admin(), 0, 0), Err(ContractError::Paused));
    assert_eq!(contract.get_pool_info().entry_count, 1);
}

#[test]
fn entry_overflow_is_insufficient_balance() {
    // fee * rake_bps does not fit.
    let mut contract = PrizePool::new(admin(), 2, player(), 10, u128::MAX);
    assert_eq!(
        contract.enter_jackpot(player(), u128::MAX, 0),
        Err(ContractError::InsufficientBalance)
    );
    // A rake above the whole can exceed the fee.
    let mut contract = PrizePool::new(admin(), 15_000, player(), 10, u128::MAX);
    assert_eq!(contract.enter_jackpot(player(), 100, 0), Err(ContractError::InsufficientBalance));
    // With a fee of 1 the rake rounds down to the fee itself.
    assert!(contract.enter_jackpot(player(), 1, 0).is_ok());
    assert_eq!(contract.get_pool_info().pool_balance, 0);
    assert_eq!(contract.get_pool_info().rake_balance, 1);
    // The prize pool does not fit.
    let mut contract = PrizePool::new(admin(), 0, player(), 10, u128::MAX);
    contract.enter_jackpot(player(), u128::MAX, 0).unwrap();
    assert_eq!(contract.enter_jackpot(player(), 1, 0), Err(ContractError::InsufficientBalance));
    assert_eq!(contract.get_pool_info().entry_count, 1);
    // The rake does not fit: 10001 entries of floor(MAX / 10000), all rake.
    let fee = u128::MAX / 10_000;
    let mut contract = PrizePool::new(admin(), 10_000, player(), 20_000, u128::MAX);
    for _ in 0..10_000 {
        contract.enter_jackpot(player(), fee, 0).unwrap();
    }
    assert_eq!(contract.enter_jackpot(player(), fee, 0), Err(ContractError::InsufficientBalance));
    let info = contract.get_pool_info();
    assert_eq!(info.rake_balance, fee * 10_000);
    assert_eq!(info.pool_balance, 0);
    assert_eq!(info.entry_count, 10_000);
}

#[test]
fn draw_picks_the_entrant_at_the_seed_modulo_the_count() {
    let mut contract = setup_contract();
    let players = [player(), charlie(), AccountId::from([4u8; 32])];
    for p in players {
        contract.enter_jackpot(p, 1_000, 5).unwrap();
    }
    // seed = 7 + 100 + 0 = 107, 107 % 3 = 2
    let event = contract.execute_draw(admin(), 7, 100).unwrap();
    assert_eq!(
        event,
        DrawExecuted {
            draw_id: 0,
            winner: players[2],
            prize_amount: 2_850,
            entry_count: 3,
            block_number: 7,
        }
    );
    assert_eq!(
        contract.get_draw(0),
        Some(Draw {
            draw_id: 0,
            winner: players[2],
            prize_amount: 2_850,
            entry_count: 3,
            executed_at_block: 7,
        })
    );
    // The prize left the pool, the rake stayed, and draw 1 is open and empty.
    assert_eq!(
        contract.get_pool_info(),
        PoolInfo {
            pool_balance: 0,
            rake_balance: 150,
            entry_count: 0,
            draw_id: 1,
            is_paused: false,
        }
    );

    // In draw 1 the draw id is part of the seed: 7 + 100 + 1 = 108, 108 % 2 = 0.
    contract.enter_jackpot(player(), 1_000, 8).unwrap();
    contract.enter_jackpot(charlie(), 1_000, 8).unwrap();
    let event = contract.execute_draw(admin(), 7, 100).unwrap();
    assert_eq!(event.draw_id, 1);
    assert_eq!(event.winner, player());
    assert_eq!(contract.get_entry(4).unwrap().draw_id, 1);
}

#[test]
fn draw_seed_wraps_around() {
    let mut contract = setup_contract();
    contract.enter_jackpot(player(), 10, 0).unwrap();
    contract.enter_jackpot(charlie(), 10, 0).unwrap();
    contract.enter_jackpot(AccountId::from([4u8; 32]), 10, 0).unwrap();
    // 5 + u64::MAX + 0 wraps to 4, and 4 % 3 = 1.
    let event = contract.execute_draw(admin(), 5, u64::MAX).unwrap();
    assert_eq!(event.winner, charlie());
}

#[test]
fn draw_errors() {
    let mut contract = setup_contract();
    assert_eq!(contract.execute_draw(admin(), 1, 1), Err(ContractError::NoEntries));
    contract.enter_jackpot(player(), 10, 0).unwrap();
    assert_eq!(contract.execute_draw(player(), 1, 1), Err(ContractError::Unauthorized));
    contract.set_paused(admin(), true).unwrap();
    assert_eq!(contract.execute_draw(admin(), 1, 1), Err(ContractError::Paused));
    assert_eq!(contract.execute_draw(player(), 1, 1), Err(ContractError::Paused));
    contract.set_paused(admin(), false).unwrap();
    assert!(contract.execute_draw(admin(), 1, 1).is_ok());
    assert_eq!(contract.execute_draw(admin(), 1, 1), Err(ContractError::NoEntries));
}

#[test]
fn claim_errors_and_second_claim() {
    let mut contract = setup_contract();
    assert_eq!(contract.claim_prize(player(), 0, true), Err(ContractError::InvalidDraw));
    contract.enter_jackpot(player(), 100_000_000, 0).unwrap();
    assert_eq!(contract.claim_prize(player(), 0, true), Err(ContractError::InvalidDraw));
    contract.execute_draw(admin(), 3, 9).unwrap();
    assert_eq!(contract.claim_prize(player(), 1, true), Err(ContractError::InvalidDraw));
    assert_eq!(contract.claim_prize(charlie(), 0, true), Err(ContractError::NotWinner));
    assert_eq!(contract.claim_prize(player(), 0, false), Err(ContractError::TransferFailed));
    // The failed transfer left the prize in place.
    assert_eq!(contract.get_draw(0).unwrap().prize_amount, 95_000_000);
    assert_eq!(
        contract.prize_payout(player(), 0),
        Some(Transfer { to: player(), amount: 95_000_000 })
    );
    assert_eq!(contract.prize_payout(charlie(), 0), None);
    let (amount, event) = contract.claim_prize(player(), 0, true).unwrap();
    assert_eq!(amount, 95_000_000);
    assert_eq!(event, PrizeClaimed { winner: player(), draw_id: 0, amount: 95_000_000 });
    assert_eq!(contract.get_draw(0).unwrap().prize_amount, 0);
    assert_eq!(contract.claim_prize(player(), 0, true), Err(ContractError::AlreadyClaimed));
    assert_eq!(contract.claim_prize(player(), 0, false), Err(ContractError::AlreadyClaimed));
    assert_eq!(contract.claim_prize(charlie(), 0, true), Err(ContractError::NotWinner));
    assert_eq!(contract.prize_payout(player(), 0), None);
}

#[test]
fn claim_is_open_while_the_pool_is_paused() {
    let mut contract = setup_contract();
    contract.enter_jackpot(player(), 100, 0).unwrap();
    contract.execute_draw(admin(), 0, 0).unwrap();
    contract.set_paused(admin(), true).unwrap();
    assert_eq!(contract.claim_prize(player(), 0, true).unwrap().0, 95);
}

#[test]
fn draw_without_a_winner_cannot_be_claimed() {
    let zero = AccountId::from([0u8; 32]);
    let mut contract = setup_contract();
    // The zero account stands for "no winner", so a draw it wins is void.
    contract.enter_jackpot(zero, 100, 0).unwrap();
    contract.execute_draw(admin(), 0, 0).unwrap();
    assert_eq!(contract.get_draw(0).unwrap().winner, zero);
    assert_eq!(contract.claim_prize(zero, 0, true), Err(ContractError::InvalidDraw));
    // So is a draw executed at the block that stands for "not executed".
    contract.enter_jackpot(player(), 100, 0).unwrap();
    contract.execute_draw(admin(), u32::MAX, 0).unwrap();
    assert_eq!(contract.claim_prize(player(), 1, true), Err(ContractError::InvalidDraw));
}

#[test]
fn empty_prize_counts_as_claimed() {
    // With the whole fee kept as rake the prize is zero from the start.
    let mut contract = PrizePool::new(admin(), 10_000, player(), 10, 1_000);
    contract.enter_jackpot(player(), 100, 0).unwrap();
    contract.execute_draw(admin(), 0, 0).unwrap();
    assert_eq!(contract.claim_prize(player(), 0, true), Err(ContractError::AlreadyClaimed));
}

#[test]
fn rake_withdrawal() {
    let mut contract = setup_contract();
    assert_eq!(contract.withdraw_rake(player(), true), Err(ContractError::Unauthorized));
    // Nothing collected: zero, no event, and the transfer report is not read.
    assert_eq!(contract.withdraw_rake(admin(), false), Ok((0, None)));
    assert_eq!(contract.rake_payout(admin()), None);
    contract.enter_jackpot(player(), 100_000_000, 0).unwrap();
    assert_eq!(
        contract.rake_payout(admin()),
        Some(Transfer { to: admin(), amount: 5_000_000 })
    );
    assert_eq!(contract.rake_payout(player()), None);
    assert_eq!(contract.withdraw_rake(admin(), false), Err(ContractError::TransferFailed));
    assert_eq!(contract.get_pool_info().rake_balance, 5_000_000);
    assert_eq!(
        contract.withdraw_rake(admin(), true),
        Ok((5_000_000, Some(RakeWithdrawn { admin: admin(), amount: 5_000_000 })))
    );
    assert_eq!(contract.get_pool_info().rake_balance, 0);
    assert_eq!(contract.get_pool_info().pool_balance, 95_000_000);
    assert_eq!(contract.withdraw_rake(admin(), true), Ok((0, None)));
}

#[test]
fn pause_switch() {
    let mut contract = setup_contract();
    assert_eq!(contract.set_paused(player(), true), Err(ContractError::Unauthorized));
    assert!(!contract.get_pool_info().is_paused);
    assert_eq!(
        contract.set_paused(admin(), true),
        Ok(PauseChange::Paused(Paused { by: admin() }))
    );
    assert!(contract.get_pool_info().is_paused);
    // Whoever enters, whatever the fee, and whatever else happens meanwhile.
    assert_eq!(contract.enter_jackpot(player(), 1, 0), Err(ContractError::Paused));
    assert_eq!(contract.set_rake_bps(admin(), 100), Ok(()));
    assert_eq!(contract.withdraw_rake(admin(), true), Ok((0, None)));
    assert_eq!(contract.set_paused(player(), false), Err(ContractError::Unauthorized));
    assert_eq!(contract.enter_jackpot(charlie(), u128::MAX, 9), Err(ContractError::Paused));
    assert_eq!(contract.enter_jackpot(admin(), 0, 9), Err(ContractError::Paused));
    assert_eq!(
        contract.set_paused(admin(), false),
        Ok(PauseChange::Unpaused(Unpaused { by: admin() }))
    );
    assert!(contract.enter_jackpot(player(), 1, 0).is_ok());
}

#[test]
fn rake_setting() {
    let mut contract = setup_contract();
    assert_eq!(contract.set_rake_bps(player(), 100), Err(ContractError::Unauthorized));
    assert_eq!(contract.set_rake_bps(admin(), 10_001), Err(ContractError::InvalidEntryFee));
    assert_eq!(contract.set_rake_bps(admin(), 10_000), Ok(()));
    contract.enter_jackpot(player(), 1_000, 0).unwrap();
    assert_eq!(contract.get_pool_info().rake_balance, 1_000);
    assert_eq!(contract.get_pool_info().pool_balance, 0);
    assert_eq!(contract.set_rake_bps(admin(), 0), Ok(()));
    contract.enter_jackpot(player(), 1_000, 0).unwrap();
    assert_eq!(contract.get_pool_info().rake_balance, 1_000);
    assert_eq!(contract.get_pool_info().pool_balance, 1_000);
}

#[test]
fn max_entries_is_per_draw() {
    let mut contract = PrizePool::new(admin(), 500, player(), 2, 1_000);
    contract.enter_jackpot(player(), 10, 0).unwrap();
    contract.enter_jackpot(player(), 10, 0).unwrap();
    assert_eq!(contract.enter_jackpot(player(), 10, 0), Err(ContractError::MaxEntriesReached));
    contract.execute_draw(admin(), 0, 0).unwrap();
    assert_eq!(contract.enter_jackpot(player(), 10, 0).unwrap().0, 2);
    // A pool that admits no entry at all.
    let mut closed = PrizePool::new(admin(), 500, player(), 0, 1_000);
    assert_eq!(closed.enter_jackpot(player(), 10, 0), Err(ContractError::MaxEntriesReached));
}

fn sample_state() -> PrizePoolState {
    let mut contract = setup_contract();
    contract.enter_jackpot(player(), 1_000, 1).unwrap();
    contract.execute_draw(admin(), 2, 3).unwrap();
    contract.enter_jackpot(charlie(), 2_000, 4).unwrap();
    contract.enter_jackpot(player(), 3_000, 5).unwrap();
    contract.into_state()
}

#[test]
fn pool_state_round_trip_keeps_everything() {
    let state = sample_state();
    assert_eq!(state.pool_balance, 4_750);
    assert_eq!(state.rake_balance, 300);
    assert_eq!(state.rake_bps, 500);
    assert_eq!(state.entries.len(), 3);
    assert_eq!(state.draws.len(), 1);
    assert_eq!(state.entrants, vec![charlie(), player()]);
    assert_eq!(state.admin, admin());
    assert_eq!(state.rng_address, player());
    assert_eq!(state.max_entries_per_draw, 100);
    assert_eq!(state.max_entry_fee, 1_000_000_000_000);
    assert!(!state.is_paused);
    let mut contract = PrizePool::from_state(state).unwrap();
    assert_eq!(
        contract.get_pool_info(),
        PoolInfo {
            pool_balance: 4_750,
            rake_balance: 300,
            entry_count: 2,
            draw_id: 1,
            is_paused: false,
        }
    );
    assert_eq!(contract.get_draw(0).unwrap().winner, player());
    assert_eq!(contract.get_entry(2).unwrap().entry_fee, 3_000);
    // 9 + 0 + 1 = 10, 10 % 2 = 0
    assert_eq!(contract.execute_draw(admin(), 9, 0).unwrap().winner, charlie());
}

#[test]
fn invalid_pool_state_is_refused() {
    assert!(PrizePool::from_state(sample_state()).is_some());
    // More entrants than the limit.
    let mut state = sample_state();
    state.max_entries_per_draw = 1;
    assert!(PrizePool::from_state(state).is_none());
    // More entrants than entries.
    let mut state = sample_state();
    state.entries.clear();
    assert!(PrizePool::from_state(state).is_none());
    // A draw that does not carry its own id, or never had an entrant.
    let mut state = sample_state();
    state.draws[0].draw_id = 1;
    assert!(PrizePool::from_state(state).is_none());
    let mut state = sample_state();
    state.draws[0].entry_count = 0;
    assert!(PrizePool::from_state(state).is_none());
    // An entrant who is not the player of the matching entry.
    let mut state = sample_state();
    state.entrants[0] = player();
    assert!(PrizePool::from_state(state).is_none());
    // An entry of the open draw that names another draw.
    let mut state = sample_state();
    state.entries[2].draw_id = 0;
    assert!(PrizePool::from_state(state).is_none());
    // Entries of earlier draws are not looked at.
    let mut state = sample_state();
    state.entries[0].draw_id = 7;
    assert!(PrizePool::from_state(state).is_some());
}

#[test]
fn claimed_prize_stays_claimed_whatever_happens_in_between() {
    let mut contract = setup_contract();
    contract.enter_jackpot(player(), 1_000, 0).unwrap();
    contract.execute_draw(admin(), 0, 0).unwrap();
    contract.claim_prize(player(), 0, true).unwrap();
    let claimed = contract.get_draw(0).unwrap();
    contract.enter_jackpot(player(), 2_000, 1).unwrap();
    contract.enter_jackpot(charlie(), 2_000, 1).unwrap();
    contract.withdraw_rake(admin(), true).unwrap();
    contract.execute_draw(admin(), 1, 1).unwrap();
    contract.set_rake_bps(admin(), 0).unwrap();
    contract.set_paused(admin(), true).unwrap();
    assert_eq!(contract.get_draw(0), Some(claimed));
    assert_eq!(contract.claim_prize(player(), 0, true), Err(ContractError::AlreadyClaimed));
}

#[test]
fn money_is_neither_made_nor_lost() {
    let mut contract = setup_contract();
    let held = |c: &PrizePool| {
        let info = c.get_pool_info();
        let mut sum = info.pool_balance + info.rake_balance;
        let mut id = 0;
        while let Some(draw) = c.get_draw(id) {
            sum += draw.prize_amount;
            id += 1;
        }
        sum
    };
    contract.enter_jackpot(player(), 1_001, 0).unwrap();
    contract.enter_jackpot(charlie(), 777, 0).unwrap();
    assert_eq!(held(&contract), 1_778);
    contract.execute_draw(admin(), 4, 4).unwrap();
    assert_eq!(held(&contract), 1_778);
    assert_eq!(contract.enter_jackpot(admin(), 50, 0), Err(ContractError::Unauthorized));
    contract.enter_jackpot(player(), 222, 1).unwrap();
    assert_eq!(held(&contract), 2_000);
    let (rake, _) = contract.withdraw_rake(admin(), true).unwrap();
    assert_eq!(rake, 50 + 38 + 11);
    assert_eq!(held(&contract), 2_000 - rake);
    let winner = contract.get_draw(0).unwrap().winner;
    assert_eq!(contract.claim_prize(winner, 0, false), Err(ContractError::TransferFailed));
    assert_eq!(held(&contract), 2_000 - rake);
    let (prize, _) = contract.claim_prize(winner, 0, true).unwrap();
    assert_eq!(prize, 951 + 739);
    assert_eq!(held(&contract), 2_000 - rake - prize);
    assert_eq!(held(&contract), 211);
}
