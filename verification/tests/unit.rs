use std::collections::VecDeque;
use valence_services::auction::calc_buy_amount;
use valence_services::auction_package::Price;
use valence_services::chain::Timestamp;
use valence_services::decimal::Decimal;
use valence_services::price_oracle::get_weighted_avg_price;
use valence_services::rebalancer::PID;
use valence_services::services::{start_of_cycle, ValenceError, ValenceServices};
use valence_services::signed_decimal::SignedDecimal;

/// The block time of the usual test environment.
fn mock_time() -> Timestamp {
    Timestamp::from_nanos(1_571_797_419_879_305_533)
}

fn ratio(n: u128, d: u128) -> Decimal {
    Decimal::checked_from_ratio(n, d).unwrap()
}

fn whole(n: u128) -> Decimal {
    Decimal::from_uint(n).unwrap()
}

#[test]
fn test_calc_buy_amount() {
    let price = Decimal::from_str("1.5").unwrap();
    // 4 of the second token buy 2 of the first at 1.5, and 1 is refunded.
    let (buy_amount, refund_amount) = calc_buy_amount(price, 4);
    assert_eq!(buy_amount, 2);
    assert_eq!(refund_amount, 1);

    // 5 buy 3 (worth 4.5, rounded up to 5), with nothing refunded.
    let (buy_amount, refund_amount) = calc_buy_amount(price, 5);
    assert_eq!(buy_amount, 3);
    assert_eq!(refund_amount, 0);
}

#[test]
fn test_avg_price() {
    let now = mock_time();

    // yesterday the price was 1, two days ago 0.5
    let prices = VecDeque::from(vec![
        Price { price: ratio(1, 1), time: now.minus_seconds(86_400) },
        Price { price: ratio(5, 10), time: now.minus_seconds(2 * 86_400) },
    ]);
    let avg_price = get_weighted_avg_price(&prices, now);
    assert!(avg_price.price.atomics > ratio(75, 100).atomics);

    // the second price is much older
    let prices = VecDeque::from(vec![
        Price { price: ratio(1, 1), time: now.minus_seconds(86_400) },
        Price { price: ratio(5, 10), time: now.minus_seconds(9 * 86_400) },
    ]);
    let avg_price = get_weighted_avg_price(&prices, now);
    assert!(avg_price.price.atomics > ratio(9, 10).atomics);

    let mut prices = VecDeque::from(vec![
        Price { price: ratio(1, 1), time: now.minus_seconds(86_400) },
        Price { price: ratio(5, 10), time: now.minus_seconds(5 * 86_400) },
    ]);
    // above the plain average of 0.75
    let avg_price = get_weighted_avg_price(&prices, now);
    assert!(avg_price.price.atomics > ratio(75, 100).atomics);

    // nine days ago the price was 2
    prices.push_back(Price { price: ratio(2, 1), time: now.minus_seconds(9 * 86_400) });
    // the plain average would be 1.166, the weighted one is 0.9
    let avg_price = get_weighted_avg_price(&prices, now);
    assert!(avg_price.price.atomics >= ratio(9, 10).atomics);
}

#[test]
fn test_start_of_day() {
    let time1 = mock_time();
    let time2 = mock_time().plus_seconds(5);

    let start_of_1 = start_of_cycle(time1, 60 * 60 * 24);
    let start_of_2 = start_of_cycle(time2, 60 * 60 * 24);

    assert_eq!(start_of_1, start_of_2)
}

#[test]
fn mod_test_parse() {
    let parsed = ValenceServices::from_str("rebalancer").unwrap();
    assert_eq!(parsed, ValenceServices::Rebalancer);

    let err = ValenceServices::from_str("random_unknown_service").unwrap_err();
    assert_eq!(err, ValenceError::InvalidService("random_unknown_service".to_string()));

    let name = ValenceServices::Rebalancer.to_string();
    assert_eq!(name, "rebalancer");
}

#[test]
fn test_verify() {
    PID { p: "1".to_string(), i: "0.5".to_string(), d: "0.5".to_string() }.into_parsed().unwrap();

    let err = PID { p: "1.1".to_string(), i: "0.5".to_string(), d: "0.5".to_string() }
        .into_parsed()
        .unwrap_err();
    assert_eq!(err, ValenceError::PIDErrorOver);

    let err = PID { p: "1".to_string(), i: "1.5".to_string(), d: "0.5".to_string() }
        .into_parsed()
        .unwrap_err();
    assert_eq!(err, ValenceError::PIDErrorOver)
}

#[test]
fn test_from_into() {
    let from = SignedDecimal::from(Decimal::one());
    assert_eq!(from, SignedDecimal(Decimal::one(), true));

    let from = SignedDecimal::from_uint(1);
    assert_eq!(from, SignedDecimal(Decimal::one(), true));

    let into: Decimal = SignedDecimal(Decimal::one(), true).into();
    assert_eq!(into, Decimal::one());
}

#[test]
fn test_helpers() {
    let dec = SignedDecimal::zero();
    assert_eq!(dec, SignedDecimal(Decimal::zero(), true));
    assert!(dec.is_zero());

    let dec = SignedDecimal::positive_one();
    assert_eq!(dec, SignedDecimal(Decimal::one(), true));

    let dec = SignedDecimal::neg_one();
    assert_eq!(dec, SignedDecimal(Decimal::one(), false));

    let dec = SignedDecimal(Decimal::from_str("1.5").unwrap(), true);
    assert_eq!(dec.to_uint_floor(), 1);
    assert_eq!(dec.to_uint_ceil(), 2);
}

#[test]
fn signed_decimal_test_parse() {
    let correct_pos = SignedDecimal(Decimal::from_str("1.5").unwrap(), true);
    let correct_neg = SignedDecimal(Decimal::from_str("1.5").unwrap(), false);

    assert_eq!(SignedDecimal::from_str("+1.5").unwrap(), correct_pos);
    assert_eq!(SignedDecimal::from_str("1.5").unwrap(), correct_pos);
    assert_eq!(SignedDecimal::from_str("-1.5").unwrap(), correct_neg);

    assert_eq!(SignedDecimal::from_str("-1").unwrap(), SignedDecimal::neg_one());
    assert_eq!(SignedDecimal::from_str("1").unwrap(), SignedDecimal::positive_one());

    // should err
    SignedDecimal::from_str("-f1").unwrap_err();
    SignedDecimal::from_str("-1f").unwrap_err();
    SignedDecimal::from_str("f").unwrap_err();
    SignedDecimal::from_str("1f").unwrap_err();
}

#[test]
fn test_assertion() {
    let pos = SignedDecimal(Decimal::one(), true);
    assert!(pos.is_pos());

    let neg = SignedDecimal(Decimal::one(), false);
    assert!(neg.is_neg());
}

#[test]
fn test_add() {
    let ten = whole(10);
    let two = whole(2);

    let big_positive = SignedDecimal(ten, true);
    let big_negative = SignedDecimal(ten, false);
    let small_positive = SignedDecimal(two, true);
    let small_negative = SignedDecimal(two, false);

    // "+" + "+" = "+"
    let res = big_positive + big_positive;
    assert!(res.1);

    // "-" + "-" = "-"
    let res = big_negative + big_negative;
    assert!(!res.1);

    // "+" + "-" where "+" > "-" = "+"
    let res: SignedDecimal = big_positive + small_negative;
    assert!(res.1);

    // "+" + "-" where "+" < "-" = "-"
    let res = small_positive + big_negative;
    assert!(!res.1);

    // "-" + "+" where "-" > "+" = "-"
    let res = big_negative + small_positive;
    assert!(!res.1);

    // "-" + "+" where "-" < "+" = "+"
    let res = small_negative + big_positive;
    assert!(res.1);
}

#[test]
fn test_sub() {
    let ten = whole(10);
    let two = whole(2);

    let big_positive = SignedDecimal(ten, true);
    let big_negative = SignedDecimal(ten, false);
    let small_positive = SignedDecimal(two, true);
    let small_negative = SignedDecimal(two, false);

    // "+" - "+" where "+" > "+" = "+"
    let res = big_positive - small_positive;
    assert!(res.1);

    // "+" - "+" where "+" < "+" = "-"
    let res = small_positive - big_positive;
    assert!(!res.1);

    // "-" - "-" where "-" > "-" = "-"
    let res = big_negative - small_negative;
    assert!(!res.1);
    assert_eq!(res.0.to_uint_floor(), 8);

    // "-" - "-" where "-" < "-" = "+"
    let res = small_negative - big_negative;
    assert!(res.1);
    assert_eq!(res.0.to_uint_floor(), 8);

    // "+" - "-" = "+"
    let res = small_positive - big_negative;
    assert!(res.1);

    // "-" - "+" = "-"
    let res = small_negative - big_positive;
    assert!(!res.1);
}

#[test]
fn test_mul() {
    let ten = whole(10);

    let positive = SignedDecimal(ten, true);
    let negative = SignedDecimal(ten, false);

    // "+" * "+" = "+"
    let res = positive * positive;
    assert!(res.1);

    // "-" * "-" = "+"
    let res = negative * negative;
    assert!(res.1);

    // "+" * "-" = "-"
    let res = positive * negative;
    assert!(!res.1);

    // "-" * "+" = "-"
    let res = negative * positive;
    assert!(!res.1);
}

#[test]
fn test_div() {
    let ten = whole(10);

    let positive = SignedDecimal(ten, true);
    let negative = SignedDecimal(ten, false);

    let res = positive / positive;
    assert!(res.1);

    let res = negative / negative;
    assert!(res.1);

    let res = positive / negative;
    assert!(!res.1);

    let res = negative / positive;
    assert!(!res.1);
}

#[test]
fn test_verify_0_always_pos() {
    let one = SignedDecimal::positive_one();
    let neg_one = SignedDecimal::neg_one();

    let res = SignedDecimal::zero();
    assert!(res.is_pos());

    let res = SignedDecimal::new(Decimal::zero(), false);
    assert!(res.is_pos());

    let res = one - one;
    assert!(res.is_pos());

    let res = neg_one - neg_one;
    assert!(res.is_pos());

    let res = neg_one + one;
    assert!(res.is_pos());

    let res = one + neg_one;
    assert!(res.is_pos());
}
