use vstd::prelude::*;

use crate::rejection::Rejection;
use crate::types::{ClientRecord, PlanRecord, RedeemableCode};

verus! {

/// Taking the price of `plan` from `client`'s credits and adding the plan's
/// seconds to the client's both stay within the range of `i32`.
pub open spec fn purchase_in_range(client: ClientRecord, plan: PlanRecord) -> bool {
    &&& i32::MIN <= client.credits - plan.credit_cost <= i32::MAX
    &&& i32::MIN <= client.remaining_seconds + plan.seconds_given <= i32::MAX
}

/// The credits left to `client` once the price of `plan` is taken, as `i32`
/// arithmetic wraps.
pub open spec fn credits_after(client: ClientRecord, plan: PlanRecord) -> i32 {
    client.credits.wrapping_sub(plan.credit_cost)
}

/// The client after buying `plan`: its price taken from the credits and its
/// seconds added, as `i32` arithmetic wraps.
pub open spec fn purchased(client: ClientRecord, plan: PlanRecord) -> ClientRecord {
    ClientRecord {
        credits: credits_after(client, plan),
        remaining_seconds: client.remaining_seconds.wrapping_add(plan.seconds_given),
        ..client
    }
}

/// The client after redeeming a code worth `units` seconds, added as `i32`
/// arithmetic wraps.
pub open spec fn redeemed(client: ClientRecord, units: i32) -> ClientRecord {
    ClientRecord { remaining_seconds: client.remaining_seconds.wrapping_add(units), ..client }
}

/// A granted redemption: the client after it, and the stored code that it
/// spends, which the store is to delete.
#[derive(Debug, PartialEq, Eq)]
pub struct Redemption {
    pub client: ClientRecord,
    pub spent_code: i32,
}

/// What redeeming gives: an unknown code is refused as not found; a known
/// one credits its units to the client and is spent.
pub open spec fn redeem_result(code: Option<RedeemableCode>, client: Option<ClientRecord>) -> Result<
    Redemption,
    Rejection,
> {
    match code {
        None => Err(Rejection::NotFound),
        Some(k) => Ok(Redemption { client: redeemed(client->0, k.units), spent_code: k.id }),
    }
}

/// What spending credits on `plan` gives: refused where the credits less the
/// price fall below zero, else the client after the purchase.
pub open spec fn spend_outcome(client: ClientRecord, plan: PlanRecord) -> Result<ClientRecord, Rejection> {
    if credits_after(client, plan) < 0 {
        Err(Rejection::NotEnoughCredits)
    } else {
        Ok(purchased(client, plan))
    }
}

/// Spends credits on a time plan. A client whose credits, less the plan's
/// price, fall below zero is refused; otherwise the client pays the price and
/// gains the plan's seconds. The sums wrap as `i32` arithmetic does. Only time
/// plans are sold.
pub fn spend_credits(client: ClientRecord, kind: &str, plan: &PlanRecord) -> (r: Result<ClientRecord, Rejection>)
    requires
        kind@ == "TIME"@,
    ensures
        r == spend_outcome(client, *plan),
{
    let credits = client.credits.wrapping_sub(plan.credit_cost);
    if credits < 0 {
        return Err(Rejection::NotEnoughCredits);
    }
    let remaining_seconds = client.remaining_seconds.wrapping_add(plan.seconds_given);
    Ok(ClientRecord { credits, remaining_seconds, ..client })
}

/// Redeems a code (`None` where the store holds none by that text) for the
/// session's client. An unknown code is refused as not found; otherwise the
/// client gains the code's units as seconds (wrapping as `i32` does),
/// whatever the code's kind, and the code is spent: the caller deletes it
/// from the store.
pub fn redeem_code(code: Option<&RedeemableCode>, client: Option<ClientRecord>) -> (r: Result<Redemption, Rejection>)
    requires
        code is Some ==> client is Some,
    ensures
        r == redeem_result(
            match code {
                None => None,
                Some(k) => Some(*k),
            },
            client,
        ),
{
    match code {
        None => Err(Rejection::NotFound),
        Some(k) => {
            let c = client.unwrap();
            let total = c.remaining_seconds.wrapping_add(k.units);
            Ok(Redemption { client: ClientRecord { remaining_seconds: total, ..c }, spent_code: k.id })
        },
    }
}

} // verus!
