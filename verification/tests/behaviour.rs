use std::collections::VecDeque;
use valence_services::admin::{approve_admin_change, cancel_admin_change, start_admin_change, AdminError, AdminState, Expiration};
use valence_services::auction::{
    calc_buy_amount, calc_price, deposit_funds, finish_auction, is_chain_halted, price_at_height, withdraw_deposit, ActiveAuction,
    ActiveAuctionStatus,
    ContractError as AuctionContractError,
};
use valence_services::auction_package::{sort_multipliers, AuctionError, AuctionStrategy, ChainHaltConfig, MinAmount, Price};
use valence_services::auctions_manager::{check_new_auction, migrate_min_amounts, verify_server, ContractError as ManagerError};
use valence_services::chain::{BlockInfo, Pair, Timestamp};
use valence_services::decimal::Decimal;
use valence_services::events::ValenceEventKind;
use valence_services::fixed_i128::FixedI128;
use valence_services::messages::QueryFeeAction;
use valence_services::price_oracle::get_weighted_avg_price;
use valence_services::rebalance::{
    begin_system_rebalance, do_pid, end_system_rebalance, get_inputs, rebalance_dt, verify_account_balance, TargetHelper,
};
use valence_services::rebalancer::{
    validate_registration, BaseDenom, ContractError, ParsedPID, ParsedTarget, RebalancerConfig, Target,
    TargetOverrideStrategy,
};
use valence_services::rebalancer_accounts::{pause_decision, resume_authorized, service_fee, PauseReason, ServiceFeeConfig};
use valence_services::rebalancer_admin::{check_status_update, update_base_denom_whitelist, update_denom_whitelist, SystemRebalanceStatus};
use valence_services::services::{start_of_cycle, update_code_id_whitelist, RegistryError, ServiceRegistry};
use valence_services::signed_decimal::SignedDecimal;
use valence_services::target_override::verify_targets;
use valence_services::trades::generate_trades_msgs;

fn whole(n: u128) -> Decimal {
    Decimal::from_uint(n).unwrap()
}

fn s(x: &str) -> String {
    x.to_string()
}

fn block(height: u64, secs: u64) -> BlockInfo {
    BlockInfo { height, time: Timestamp::from_seconds(secs), chain_id: s("test") }
}

fn auction(start_block: u64, end_block: u64, start_price: Decimal, end_price: Decimal) -> ActiveAuction {
    ActiveAuction {
        status: ActiveAuctionStatus::Started,
        start_block,
        end_block,
        start_price,
        end_price,
        available_amount: 1000,
        resolved_amount: 0,
        total_amount: 1000,
        leftovers: [0, 0],
        last_checked_block: block(start_block, 1000),
    }
}

#[test]
fn decimal_parsing_and_arithmetic() {
    assert_eq!(Decimal::from_str("1.5").unwrap().atomics, 1_500_000_000_000_000_000);
    assert!(Decimal::from_str("abc").is_none());
    assert_eq!(Decimal::bps(2500).atomics, 250_000_000_000_000_000);
    // 1.5 * 1.5 = 2.25, 3 / 2 = 1.5
    let x = Decimal::from_str("1.5").unwrap();
    assert_eq!(x.mul(x).atomics, 2_250_000_000_000_000_000);
    assert_eq!(whole(3).div(whole(2)).atomics, 1_500_000_000_000_000_000);
    assert_eq!(Decimal::checked_from_ratio(1, 3).unwrap().atomics, 333_333_333_333_333_333);
    assert!(Decimal::checked_from_ratio(1, 0).is_none());
    assert_eq!(x.to_uint_floor(), 1);
    assert_eq!(x.to_uint_ceil(), 2);
}

#[test]
fn signed_decimal_laws_on_values() {
    let a = SignedDecimal(whole(3), false);
    let b = SignedDecimal(whole(5), true);
    // (a + b) - b == a
    assert_eq!((a + b) - b, a);
    // commutative
    assert_eq!(a + b, b + a);
    // a - a is the positive zero
    assert_eq!(a - a, SignedDecimal::zero());
    assert!((a - a).is_pos());
    // signs of products
    assert!(!(a * b).sign());
    assert!((a * a).sign());
}

#[test]
fn zero_products_and_quotients_are_positive() {
    let zero = SignedDecimal::zero();
    let neg = SignedDecimal::neg_one();
    assert_eq!(zero * neg, SignedDecimal::zero());
    assert!((zero * neg).is_pos());
    assert!((neg * zero).is_pos());
    assert!((zero / neg).is_pos());
    assert!((neg * neg).is_pos());
}

#[test]
fn fixed_point_products_truncate_toward_zero() {
    let minus_one_and_half = FixedI128 { atomics: -1_500_000_000_000_000_000 };
    let third = FixedI128 { atomics: 333_333_333_333_333_333 };
    // -1.5 * 0.333.. = -0.4999.. (toward zero)
    assert_eq!(minus_one_and_half.mul(third).atomics, -499_999_999_999_999_999);
    // -1.5 / 2 = -0.75
    let two = FixedI128 { atomics: 2_000_000_000_000_000_000 };
    assert_eq!(minus_one_and_half.div(two).atomics, -750_000_000_000_000_000);
    assert_eq!(minus_one_and_half.abs().atomics, 1_500_000_000_000_000_000);
}

#[test]
fn auction_price_falls_from_start_to_end() {
    let a = auction(100, 200, whole(2), whole(1));
    assert_eq!(calc_price(&a, 100).atomics, whole(2).atomics);
    assert_eq!(calc_price(&a, 150).atomics, Decimal::from_str("1.5").unwrap().atomics);
    assert_eq!(calc_price(&a, 200).atomics, whole(1).atomics);
    // never rises
    let mut last = calc_price(&a, 100).atomics;
    for h in 101..=200 {
        let p = calc_price(&a, h).atomics;
        assert!(p <= last);
        assert!(p >= whole(1).atomics);
        last = p;
    }
}

#[test]
fn buy_amount_never_exceeds_what_was_paid() {
    let price = Decimal::from_str("0.7").unwrap();
    for amount in [1u128, 7, 10, 99, 1000] {
        let (bought, leftover) = calc_buy_amount(price, amount);
        assert!(leftover <= amount);
        assert!(bought * price.atomics + leftover * 1_000_000_000_000_000_000 <= amount * 1_000_000_000_000_000_000);
    }
}

#[test]
fn chain_halt_detection() {
    let cfg = ChainHaltConfig { cap: 60, block_avg: Decimal::from_str("1.5").unwrap() };
    // 100 blocks should take 150 s; 200 s is within the 60 s cap, 211 s is not
    assert!(!is_chain_halted(&block(200, 1200), &block(100, 1000), &cfg));
    assert!(is_chain_halted(&block(200, 1211), &block(100, 1000), &cfg));
}

#[test]
fn auction_strategy_verification() {
    assert_eq!(
        AuctionStrategy { start_price_perc: 0, end_price_perc: 100 }.verify(),
        Err(AuctionError::InvalidAuctionStrategyStartPrice)
    );
    assert_eq!(
        AuctionStrategy { start_price_perc: 100, end_price_perc: 10000 }.verify(),
        Err(AuctionError::InvalidAuctionStrategyEndPrice)
    );
    assert_eq!(AuctionStrategy { start_price_perc: 100, end_price_perc: 100 }.verify(), Ok(()));
}

#[test]
fn weighted_average_between_counted_prices() {
    let now = Timestamp::from_seconds(2_000_000);
    let prices = VecDeque::from(vec![
        Price { price: whole(1), time: now.minus_seconds(86_400) },
        Price { price: whole(3), time: now.minus_seconds(3 * 86_400) },
        // older than ten days: does not count
        Price { price: whole(100), time: now.minus_seconds(11 * 86_400) },
    ]);
    let avg = get_weighted_avg_price(&prices, now);
    assert!(avg.price.atomics >= whole(1).atomics && avg.price.atomics <= whole(3).atomics);
    // weights 9 days and 7 days: (1 * 9 + 3 * 7) / 16 = 1.875
    assert_eq!(avg.price.atomics, 1_875_000_000_000_000_000);
    assert_eq!(avg.time, prices[0].time);
}

#[test]
fn admin_handover() {
    let mut st = AdminState { admin: s("admin"), pending: None };
    assert_eq!(start_admin_change(&mut st, &s("other"), s("new"), Expiration::Never), Err(AdminError::NotAdmin));
    assert_eq!(approve_admin_change(&mut st, &s("new"), &block(1, 1)), Err(AdminError::NoAdminChangeData));
    start_admin_change(&mut st, &s("admin"), s("new"), Expiration::AtHeight(10)).unwrap();
    assert_eq!(approve_admin_change(&mut st, &s("other"), &block(1, 1)), Err(AdminError::NotNewAdmin));
    assert_eq!(approve_admin_change(&mut st, &s("new"), &block(10, 1)), Err(AdminError::AdminChangeExpired));
    approve_admin_change(&mut st, &s("new"), &block(9, 1)).unwrap();
    assert_eq!(st.admin, "new");
    assert!(st.pending.is_none());
    // cancelling clears a proposal
    start_admin_change(&mut st, &s("new"), s("third"), Expiration::Never).unwrap();
    cancel_admin_change(&mut st, &s("new")).unwrap();
    assert_eq!(approve_admin_change(&mut st, &s("third"), &block(1, 1)), Err(AdminError::NoAdminChangeData));
}

#[test]
fn expiration_at_time() {
    let e = Expiration::AtTime(Timestamp::from_seconds(100));
    assert!(!e.is_expired(&block(1, 99)));
    assert!(e.is_expired(&block(1, 100)));
    assert!(!Expiration::Never.is_expired(&block(u64::MAX, 1)));
}

#[test]
fn service_registry_reads_back_writes() {
    let mut reg = ServiceRegistry::new();
    reg.add_service(s("rebalancer"), s("addr1")).unwrap();
    assert_eq!(reg.get_service_addr(&s("rebalancer")).unwrap(), "addr1");
    assert!(reg.is_service(&s("addr1")));
    assert!(reg.add_service(s("rebalancer"), s("addr2")).is_err());
    reg.update_service(s("rebalancer"), s("addr2")).unwrap();
    assert_eq!(reg.get_service_addr(&s("rebalancer")).unwrap(), "addr2");
    // the old address no longer belongs to a service
    assert!(!reg.is_service(&s("addr1")));
    assert!(reg.is_service(&s("addr2")));
    reg.remove_service(&s("rebalancer")).unwrap();
    assert!(reg.get_service_addr(&s("rebalancer")).is_err());
    assert!(!reg.is_service(&s("addr2")));
}

#[test]
fn cycle_start_is_aligned() {
    let t = Timestamp::from_seconds(86_400 * 10 + 500);
    assert_eq!(start_of_cycle(t, 86_400), Timestamp::from_seconds(86_400 * 10));
    assert_eq!(start_of_cycle(t.plus_seconds(1000), 86_400), Timestamp::from_seconds(86_400 * 10));
}

fn target(denom: &str, bps: u64, min: Option<u128>) -> Target {
    Target { denom: s(denom), percentage: bps, min_balance: min }
}

#[test]
fn registration_checks() {
    let bases = vec![BaseDenom { denom: s("base"), min_balance_limit: 100 }];
    let wl = vec![s("base"), s("a")];
    let targets = vec![target("base", 5000, None), target("a", 5000, None)];
    let balances = vec![Ok(60u128), Ok(100u128)];
    // a is worth 2 base units each
    let prices = vec![Ok(whole(0)), Ok(Decimal::from_str("0.5").unwrap())];
    assert_eq!(
        validate_registration(false, &bases, &s("base"), &targets, &wl, &balances, &prices).unwrap().denom,
        "base"
    );
    assert_eq!(
        validate_registration(true, &bases, &s("base"), &targets, &wl, &balances, &prices),
        Err(ContractError::AccountAlreadyRegistered)
    );
    assert_eq!(
        validate_registration(false, &bases, &s("other"), &targets, &wl, &balances, &prices),
        Err(ContractError::BaseDenomNotWhitelisted(s("other")))
    );
    let one = vec![target("base", 10000, None)];
    assert_eq!(
        validate_registration(false, &bases, &s("base"), &one, &wl, &vec![Ok(1)], &vec![Ok(whole(1))]),
        Err(ContractError::TwoTargetsMinimum)
    );
    let bad_sum = vec![target("base", 5000, None), target("a", 4000, None)];
    assert_eq!(
        validate_registration(false, &bases, &s("base"), &bad_sum, &wl, &balances, &prices),
        Err(ContractError::InvalidTargetPercentage(9000))
    );
    let two_mins = vec![target("base", 5000, Some(1)), target("a", 5000, Some(1))];
    assert_eq!(
        validate_registration(false, &bases, &s("base"), &two_mins, &wl, &balances, &prices),
        Err(ContractError::MultipleMinBalanceTargets)
    );
    let unlisted = vec![target("base", 5000, None), target("b", 5000, None)];
    assert_eq!(
        validate_registration(false, &bases, &s("base"), &unlisted, &wl, &balances, &prices),
        Err(ContractError::DenomNotWhitelisted(s("b")))
    );
    let small = vec![Ok(10u128), Ok(10u128)];
    assert_eq!(
        validate_registration(false, &bases, &s("base"), &targets, &wl, &small, &prices),
        Err(ContractError::InvalidAccountMinValue(30, 100))
    );
    let zero_price = vec![Ok(whole(0)), Ok(whole(0))];
    assert_eq!(
        validate_registration(false, &bases, &s("base"), &targets, &wl, &small, &zero_price),
        Err(ContractError::PairPriceIsZero(s("base"), s("a")))
    );
}

#[test]
fn pause_and_resume_rules() {
    let acc = s("acc");
    let trustee = Some(s("trustee"));
    // the account pauses itself; then the trustee cannot resume it
    let pauser = pause_decision(&acc, &acc, &None, &trustee).unwrap();
    assert_eq!(pauser, "acc");
    assert_eq!(resume_authorized(&acc, &s("trustee"), &pauser, &trustee), Err(ContractError::NotAuthorizedToResume));
    assert_eq!(resume_authorized(&acc, &acc, &pauser, &trustee), Ok(()));
    // the trustee pauses; it may resume
    let pauser = pause_decision(&acc, &s("trustee"), &None, &trustee).unwrap();
    assert_eq!(pauser, "trustee");
    assert_eq!(resume_authorized(&acc, &s("trustee"), &pauser, &trustee), Ok(()));
    // a pauser cannot pause twice; strangers never
    assert_eq!(pause_decision(&acc, &s("trustee"), &Some(s("trustee")), &trustee), Err(ContractError::AccountAlreadyPaused));
    assert_eq!(pause_decision(&acc, &s("x"), &None, &trustee), Err(ContractError::NotAuthorizedToPause));
    // the account overrides the trustee's pause
    assert_eq!(pause_decision(&acc, &acc, &Some(s("trustee")), &trustee).unwrap(), "acc");
}

#[test]
fn fees_by_action() {
    let fees = ServiceFeeConfig { denom: s("fee"), register_fee: 5, resume_fee: 7 };
    assert_eq!(service_fee(&fees, QueryFeeAction::Register, &None).unwrap().amount, 5);
    assert!(service_fee(&fees, QueryFeeAction::Resume, &None).is_none());
    assert_eq!(service_fee(&fees, QueryFeeAction::Resume, &Some(PauseReason::EmptyBalance)).unwrap().amount, 7);
    assert!(service_fee(&fees, QueryFeeAction::Resume, &Some(PauseReason::AccountReason(s("x")))).is_none());
}

#[test]
fn whitelist_edits() {
    let wl = vec![s("a"), s("b")];
    let out = update_denom_whitelist(wl.clone(), vec![s("c"), s("a")], vec![s("b")]).unwrap();
    assert_eq!(out, vec![s("a"), s("c")]);
    assert_eq!(update_denom_whitelist(wl.clone(), vec![], vec![s("z")]), Err(ContractError::CannotRemoveDenom(s("z"))));
    assert_eq!(update_denom_whitelist(wl, vec![], vec![s("a"), s("a")]), Err(ContractError::CannotRemoveDenom(s("a"))));
    let bases = vec![BaseDenom { denom: s("a"), min_balance_limit: 1 }];
    let out = update_base_denom_whitelist(
        bases.clone(),
        vec![BaseDenom { denom: s("a"), min_balance_limit: 9 }, BaseDenom { denom: s("b"), min_balance_limit: 2 }],
        vec![],
    )
    .unwrap();
    assert_eq!(out.len(), 2);
    assert_eq!(out[0].min_balance_limit, 1);
    assert_eq!(out[1], BaseDenom { denom: s("b"), min_balance_limit: 2 });
    let out = update_base_denom_whitelist(
        bases.clone(),
        vec![BaseDenom { denom: s("c"), min_balance_limit: 4 }, BaseDenom { denom: s("c"), min_balance_limit: 8 }],
        vec![],
    )
    .unwrap();
    assert_eq!(out, vec![bases[0].clone(), BaseDenom { denom: s("c"), min_balance_limit: 4 }]);
    assert_eq!(
        update_base_denom_whitelist(bases, vec![], vec![s("b")]),
        Err(ContractError::CannotRemoveBaseDenom(s("b")))
    );
}

#[test]
fn system_status_machine() {
    assert_eq!(
        check_status_update(&SystemRebalanceStatus::Processing {
            cycle_started: Timestamp::from_seconds(1),
            start_from: s("x"),
            prices: vec![]
        }),
        Err(ContractError::CantUpdateStatusToProcessing)
    );
    let now = Timestamp::from_seconds(86_400 * 3 + 10);
    let begin = begin_system_rebalance(
        SystemRebalanceStatus::Finished { next_cycle: Timestamp::from_seconds(86_400 * 3) },
        now,
        86_400,
        None,
    )
    .unwrap();
    assert_eq!(begin.limit, 50);
    assert_eq!(begin.cycle_start, Timestamp::from_seconds(86_400 * 3));
    assert_eq!(
        begin_system_rebalance(SystemRebalanceStatus::Finished { next_cycle: now.plus_seconds(1) }, now, 86_400, None),
        Err(ContractError::CycleNotStartedYet(86_400 * 3 + 11))
    );
    assert_eq!(
        begin_system_rebalance(SystemRebalanceStatus::NotStarted { cycle_start: now }, now, 86_400, Some(0)),
        Err(ContractError::LimitIsZero)
    );
    let done = end_system_rebalance(3, 50, begin.cycle_start, 86_400, Some(s("acc")), vec![]);
    assert_eq!(done, SystemRebalanceStatus::Finished { next_cycle: Timestamp::from_seconds(86_400 * 4) });
    let more = end_system_rebalance(51, 50, begin.cycle_start, 86_400, Some(s("acc")), vec![]);
    assert!(matches!(more, SystemRebalanceStatus::Processing { .. }));
}

#[test]
fn account_balance_and_time_step() {
    assert_eq!(verify_account_balance(0, 1), Err(ContractError::AccountBalanceIsZero));
    assert_eq!(verify_account_balance(5, 10), Err(ContractError::InvalidAccountMinValue(5, 10)));
    assert_eq!(verify_account_balance(10, 10), Ok(()));
    // first rebalance: one cycle
    assert_eq!(rebalance_dt(Timestamp::from_seconds(0), Timestamp::from_seconds(100), 50).unwrap().atomics, whole(1).atomics);
    // two cycles passed
    assert_eq!(rebalance_dt(Timestamp::from_seconds(100), Timestamp::from_seconds(200), 50).unwrap().atomics, whole(2).atomics);
    // capped at ten
    assert_eq!(rebalance_dt(Timestamp::from_seconds(100), Timestamp::from_seconds(10_000), 50).unwrap().atomics, whole(10).atomics);
}

fn parsed(denom: &str, perc: Decimal, min: Option<u128>) -> ParsedTarget {
    ParsedTarget { denom: s(denom), percentage: perc, min_balance: min, last_input: None, last_i: FixedI128::zero() }
}

fn config(targets: Vec<ParsedTarget>, has_min: bool, strategy: TargetOverrideStrategy) -> RebalancerConfig {
    RebalancerConfig {
        is_paused: None,
        trustee: None,
        base_denom: s("base"),
        targets,
        pid: ParsedPID { p: whole(1), i: whole(0), d: whole(0) },
        max_limit: whole(1),
        last_rebalance: Timestamp::from_seconds(0),
        has_min_balance: has_min,
        target_override_strategy: strategy,
    }
}

#[test]
fn inputs_and_controller() {
    let cfg = config(
        vec![parsed("base", Decimal::bps(5000), None), parsed("a", Decimal::bps(5000), None)],
        false,
        TargetOverrideStrategy::Proportional,
    );
    let prices = vec![(Pair(s("base"), s("a")), Decimal::from_str("0.5").unwrap())];
    let (total, mut helpers) = get_inputs(&cfg, &prices, &vec![Ok(100), Ok(100)]).unwrap();
    // 100 base + 100 a worth 200 base
    assert_eq!(total.atomics, whole(300).atomics);
    assert_eq!(helpers[1].balance_value.atomics, whole(200).atomics);
    let pid = ParsedPID { p: whole(1), i: whole(0), d: whole(0) };
    let (sell, buy) = do_pid(total, &mut helpers, pid, FixedI128 { atomics: 1_000_000_000_000_000_000 }).unwrap();
    // each should hold 150: base buys 50, a sells 50
    assert_eq!(buy.len(), 1);
    assert_eq!(buy[0].target.denom, "base");
    assert_eq!(buy[0].value_to_trade.atomics, whole(50).atomics);
    assert_eq!(sell.len(), 1);
    assert_eq!(sell[0].target.denom, "a");
    assert_eq!(sell[0].value_to_trade.atomics, whole(50).atomics);
    assert_eq!(helpers[1].target.last_input, Some(whole(200)));
}

fn helper(denom: &str, perc: Decimal, min: Option<u128>, price: Decimal, balance: u128) -> TargetHelper {
    TargetHelper {
        target: parsed(denom, perc, min),
        price,
        balance_amount: balance,
        balance_value: whole(balance).div(price),
        value_to_trade: whole(0),
        auction_min_send_value: whole(0),
    }
}

#[test]
fn minimum_balance_override() {
    // the minimum balance of 80 in a 100 account raises its 50% share to 80%
    let hs = vec![
        helper("base", Decimal::bps(5000), Some(80), whole(1), 50),
        helper("a", Decimal::bps(3000), None, whole(1), 25),
        helper("b", Decimal::bps(2000), None, whole(1), 25),
    ];
    let out = verify_targets(TargetOverrideStrategy::Proportional, whole(100), hs.clone()).unwrap();
    assert_eq!(out[0].target.percentage.atomics, Decimal::bps(8000).atomics);
    assert_eq!(out[1].target.percentage.atomics, Decimal::bps(1200).atomics);
    assert_eq!(out[2].target.percentage.atomics, Decimal::bps(800).atomics);
    let out = verify_targets(TargetOverrideStrategy::Priority, whole(100), hs).unwrap();
    assert_eq!(out[1].target.percentage.atomics, Decimal::bps(2000).atomics);
    assert_eq!(out[2].target.percentage.atomics, 0);
    // no minimum balance target
    let none = vec![helper("a", Decimal::bps(10000), None, whole(1), 1)];
    assert_eq!(verify_targets(TargetOverrideStrategy::Priority, whole(1), none), Err(ContractError::NoMinBalanceTargetFound));
}

#[test]
fn trades_within_limit() {
    let mut sell = helper("a", Decimal::bps(5000), None, whole(1), 100);
    sell.value_to_trade = whole(30);
    let mut buy = helper("b", Decimal::bps(5000), None, whole(1), 0);
    buy.value_to_trade = whole(20);
    let pairs = vec![(Pair(s("a"), s("b")), s("auction-ab"))];
    let (msgs, trades) = generate_trades_msgs(vec![sell.clone()], vec![buy.clone()], &pairs, false, whole(100));
    assert_eq!(msgs.len(), 1);
    assert_eq!(msgs[0].auction, "auction-ab");
    assert_eq!(msgs[0].denom, "a");
    assert_eq!(msgs[0].amount, 20);
    assert_eq!(trades[0].amount, 20);
    // the limit caps the sale
    let (msgs, _) = generate_trades_msgs(vec![sell.clone()], vec![buy.clone()], &pairs, false, whole(5));
    assert_eq!(msgs[0].amount, 5);
    // no auction for the pair: nothing is sent
    let (msgs, trades) = generate_trades_msgs(vec![sell], vec![buy], &vec![], false, whole(100));
    assert!(msgs.is_empty() && trades.is_empty());
}

#[test]
fn new_auctions_and_server() {
    assert_eq!(verify_server(&s("srv"), &s("x")), Err(ManagerError::NotServer));
    assert_eq!(verify_server(&s("srv"), &s("srv")), Ok(()));
    let pair = Pair(s("a"), s("b"));
    let m = MinAmount { send: 1, start_auction: 2 };
    assert_eq!(check_new_auction(&pair, Some(m), None), Ok(Some(m)));
    assert_eq!(check_new_auction(&pair, None, Some(m)), Ok(None));
    assert_eq!(check_new_auction(&pair, None, None), Err(ManagerError::MustSetMinAuctionAmount(s("a"))));
    assert_eq!(
        check_new_auction(&Pair(s("a"), s("a")), Some(m), None),
        Err(ManagerError::AuctionError(AuctionError::InvalidPair))
    );
    let migrated = migrate_min_amounts(&vec![(s("a"), 7)]);
    assert_eq!(migrated[0].1, MinAmount { send: 7, start_auction: 7 });
}

#[test]
fn event_names() {
    assert_eq!(ValenceEventKind::AccountCreation.event_name(), "account-creation");
    assert_eq!(ValenceEventKind::RebalancerAccountRebalancePause.event_name(), "rebalancer-account-rebalance-pause");
    assert_eq!(ValenceEventKind::AuctionManagerChangeServerAddr.event_name(), "auction-manager-change-server-addr");
}


#[test]
fn code_id_whitelist_edits() {
    let mut w = update_code_id_whitelist(&vec![1, 2], &vec![3], &vec![1]).unwrap();
    w.sort();
    assert_eq!(w, vec![2, 3]);
    // an id that is neither listed nor added
    assert_eq!(update_code_id_whitelist(&vec![1], &vec![], &vec![5]), Err(RegistryError::CodeIdNotInWhitelist(5)));
    // the second removal of an id finds it gone; the first bad removal is reported
    assert_eq!(
        update_code_id_whitelist(&vec![1, 2], &vec![], &vec![2, 2, 9]),
        Err(RegistryError::CodeIdNotInWhitelist(2))
    );
    // an added id may be removed in the same update
    assert_eq!(update_code_id_whitelist(&vec![], &vec![4], &vec![4]), Ok(vec![]));
}

#[test]
fn freshness_multipliers_sorted_stably() {
    let m = vec![(whole(1), whole(2)), (whole(3), whole(5)), (whole(1), whole(7)), (whole(3), whole(4))];
    let sorted = sort_multipliers(&m);
    assert_eq!(sorted, vec![(whole(3), whole(5)), (whole(3), whole(4)), (whole(1), whole(2)), (whole(1), whole(7))]);
}

#[test]
fn controller_stops_at_a_value_out_of_range() {
    let mut hs = vec![
        helper("base", Decimal::bps(5000), None, whole(1), 100),
        helper("a", Decimal::bps(5000), None, whole(1), 100),
    ];
    hs[1].balance_value = Decimal { atomics: u128::MAX };
    let untouched = hs[1].clone();
    let pid = ParsedPID { p: whole(1), i: whole(0), d: whole(0) };
    let r = do_pid(whole(200), &mut hs, pid, FixedI128 { atomics: 1_000_000_000_000_000_000 });
    assert_eq!(r, Err(ContractError::SignedDecimalRangeExceeded));
    // the first target was run, the second left as it was
    assert_eq!(hs[0].target.last_input, Some(whole(100)));
    assert_eq!(hs[1], untouched);
}

#[test]
fn deposits_come_back_on_withdrawal() {
    let min = Some(MinAmount { send: 10, start_auction: 100 });
    // others deposited 40, the sender 5 already
    let (d, sum) = deposit_funds(false, 20, min, Some(5), Some(45)).unwrap();
    assert_eq!((d, sum), (25, 65));
    assert_eq!(withdraw_deposit(Some(d), Some(sum)), Ok((25, Some(40))));
    // refusals
    assert_eq!(deposit_funds(true, 20, min, None, None), Err(AuctionContractError::AuctionIsPaused));
    assert_eq!(deposit_funds(false, 20, None, None, None), Err(AuctionContractError::NoTokenMinAmount));
    assert_eq!(deposit_funds(false, 5, min, None, None), Err(AuctionContractError::AuctionAmountTooLow(10)));
    assert_eq!(deposit_funds(false, 20, min, Some(u128::MAX), None), Err(AuctionContractError::OverflowError));
    assert_eq!(withdraw_deposit(None, Some(3)), Err(AuctionContractError::NoFundsToWithdraw));
    assert_eq!(withdraw_deposit(Some(4), Some(3)), Err(AuctionContractError::OverflowError));
}

#[test]
fn sale_crossing_the_minimum_balance() {
    // selling 50 value (50000 units at 1000 units per value) would leave 49010 of
    // a 99010 balance, below its minimum of 99000: only the 10 units above the
    // minimum are sold
    let mut sell = helper("a", Decimal::bps(5000), Some(99_000), whole(1000), 99_010);
    sell.value_to_trade = whole(50);
    let mut buy = helper("b", Decimal::bps(5000), None, whole(1), 0);
    buy.value_to_trade = whole(1000);
    let mut buy2 = helper("c", Decimal::bps(5000), None, whole(1), 0);
    buy2.value_to_trade = whole(1000);
    let pairs = vec![(Pair(s("a"), s("b")), s("auction-ab")), (Pair(s("a"), s("c")), s("auction-ac"))];
    let (msgs, _) = generate_trades_msgs(vec![sell], vec![buy, buy2], &pairs, false, whole(1000));
    assert_eq!(msgs.len(), 1);
    assert_eq!(msgs[0].amount, 10);
}

#[test]
fn sales_of_a_cycle_share_the_limit() {
    // two tokens to sell, 30 each, two to buy, 20 each, a limit of 25 for the cycle
    let mut a = helper("a", Decimal::bps(5000), None, whole(1), 100);
    a.value_to_trade = whole(30);
    let mut d = helper("d", Decimal::bps(5000), None, whole(1), 100);
    d.value_to_trade = whole(30);
    let mut b = helper("b", Decimal::bps(5000), None, whole(1), 0);
    b.value_to_trade = whole(20);
    let mut c = helper("c", Decimal::bps(5000), None, whole(1), 0);
    c.value_to_trade = whole(20);
    let pairs = vec![
        (Pair(s("a"), s("b")), s("ab")),
        (Pair(s("a"), s("c")), s("ac")),
        (Pair(s("d"), s("b")), s("db")),
        (Pair(s("d"), s("c")), s("dc")),
    ];
    let (msgs, trades) = generate_trades_msgs(vec![a, d], vec![b, c], &pairs, false, whole(25));
    let total: u128 = msgs.iter().map(|m| m.amount).sum();
    assert_eq!(total, 25);
    assert_eq!(msgs[0].amount, 20);
    assert_eq!(msgs[1].amount, 5);
    assert_eq!(trades.len(), 2);
}

#[test]
fn price_only_where_it_can_be_computed() {
    let a = auction(10, 20, whole(3), whole(1));
    assert_eq!(price_at_height(&a, 10), Some(whole(3)));
    assert_eq!(price_at_height(&a, 20), Some(whole(1)));
    assert_eq!(price_at_height(&a, 9), None);
    let inverted = auction(10, 20, whole(1), whole(3));
    assert_eq!(price_at_height(&inverted, 15), None);
    let empty = auction(10, 10, whole(3), whole(1));
    assert_eq!(price_at_height(&empty, 10), None);
}

#[test]
fn event_kinds_have_their_own_names() {
    assert_ne!(ValenceEventKind::AuctionOpen.event_name(), ValenceEventKind::AuctionOpenRefund.event_name());
    assert_ne!(ValenceEventKind::RebalancerUpdate.event_name(), ValenceEventKind::RebalancerUpdateFees.event_name());
}

#[test]
fn paying_out_a_finished_auction() {
    let mut a = auction(10, 20, whole(3), whole(1));
    a.status = ActiveAuctionStatus::Finished;
    a.total_amount = 100;
    // nothing sold: every provider gets its deposit back
    a.available_amount = 100;
    a.resolved_amount = 0;
    let entries = vec![(s("p1"), 60), (s("p2"), 40)];
    let out = finish_auction(a.clone(), 30, 5, &entries, &s("sold"), &s("bought"), Timestamp::from_seconds(7)).unwrap();
    assert!(out.is_closed);
    assert_eq!(out.payouts.len(), 2);
    assert_eq!(out.payouts[0].addr, "p1");
    assert_eq!(out.payouts[0].coins[0].denom, "sold");
    assert_eq!(out.payouts[0].coins[0].amount, 60);
    assert_eq!(out.payouts[1].coins[0].amount, 40);
    assert_eq!(out.auction.status, ActiveAuctionStatus::AuctionClosed);
    assert_eq!(out.price, None);
    // everything sold for 200: providers share what was received, the price is 2
    a.available_amount = 0;
    a.resolved_amount = 200;
    let out = finish_auction(a.clone(), 30, 5, &entries, &s("sold"), &s("bought"), Timestamp::from_seconds(7)).unwrap();
    assert_eq!(out.payouts[0].coins.len(), 1);
    assert_eq!(out.payouts[0].coins[0].denom, "bought");
    assert_eq!(out.payouts[0].coins[0].amount, 120);
    assert_eq!(out.payouts[1].coins[0].amount, 80);
    assert_eq!(out.auction.leftovers, [0, 0]);
    assert_eq!(out.price, Some(Price { price: whole(2), time: Timestamp::from_seconds(7) }));
    // a round of two out of a limit of two resumes after the last provider
    let out = finish_auction(a.clone(), 30, 2, &entries, &s("sold"), &s("bought"), Timestamp::from_seconds(7)).unwrap();
    assert!(!out.is_closed);
    assert_eq!(out.auction.status, ActiveAuctionStatus::CloseAuction(Some(s("p2")), 0, 200));
    // still going, or already closed
    let mut going = a.clone();
    going.status = ActiveAuctionStatus::Started;
    going.available_amount = 5;
    assert_eq!(
        finish_auction(going, 15, 5, &entries, &s("sold"), &s("bought"), Timestamp::from_seconds(7)),
        Err(AuctionContractError::AuctionStillGoing)
    );
    let mut closed = a;
    closed.status = ActiveAuctionStatus::AuctionClosed;
    assert_eq!(
        finish_auction(closed, 30, 5, &entries, &s("sold"), &s("bought"), Timestamp::from_seconds(7)),
        Err(AuctionContractError::AuctionClosed)
    );
}
