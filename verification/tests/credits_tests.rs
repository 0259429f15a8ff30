use openfi_proto::credits::{redeem_code, spend_credits};
use openfi_proto::rejection::Rejection;
use openfi_proto::types::{ClientRecord, PlanRecord, RedeemableCode};

fn record(credits: i32, seconds: i32) -> ClientRecord {
    ClientRecord { id: 1, mac: "m".to_owned(), credits, remaining_seconds: seconds }
}

#[test]
fn spend_without_enough_credits() {
    let plan = PlanRecord { id: 2, credit_cost: 5, seconds_given: 3600 };
    assert_eq!(spend_credits(record(4, 10), "TIME", &plan), Err(Rejection::NotEnoughCredits));
}

#[test]
fn spend_buys_seconds() {
    let plan = PlanRecord { id: 1, credit_cost: 1, seconds_given: 600 };
    let after = spend_credits(record(1, 10), "TIME", &plan).unwrap();
    assert_eq!(after, ClientRecord { id: 1, mac: "m".to_owned(), credits: 0, remaining_seconds: 610 });
}

#[test]
fn redeem_unknown_code() {
    assert_eq!(redeem_code(None, Some(record(0, 0))), Err(Rejection::NotFound));
    assert_eq!(redeem_code(None, None), Err(Rejection::NotFound));
}

#[test]
fn redeem_adds_units() {
    let code = RedeemableCode { id: 3, code: b"ABCDEFGHIJ".to_vec(), kind: "DATA".to_owned(), units: 1200 };
    let after = redeem_code(Some(&code), Some(record(2, 30))).unwrap();
    assert_eq!(after.client, ClientRecord { id: 1, mac: "m".to_owned(), credits: 2, remaining_seconds: 1230 });
    assert_eq!(after.spent_code, 3);
    // The spent code is gone from the store: the same text now finds nothing.
    assert_eq!(redeem_code(None, Some(after.client)).err(), Some(Rejection::NotFound));
}

#[test]
fn spend_wraps_like_i32() {
    // i32::MIN - 1 wraps to i32::MAX, which is not below zero: the purchase goes through.
    let plan = PlanRecord { id: 1, credit_cost: 1, seconds_given: 10 };
    let after = spend_credits(record(i32::MIN, i32::MAX), "TIME", &plan).unwrap();
    assert_eq!(after.credits, i32::MAX);
    assert_eq!(after.remaining_seconds, i32::MIN + 9);
}

#[test]
fn redeem_wraps_like_i32() {
    let code = RedeemableCode { id: 9, code: b"QQQQQQQQQQ".to_vec(), kind: "TIME".to_owned(), units: 1 };
    let after = redeem_code(Some(&code), Some(record(0, i32::MAX))).unwrap();
    assert_eq!(after.client.remaining_seconds, i32::MIN);
    assert_eq!(after.spent_code, 9);
}
