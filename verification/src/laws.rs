use vstd::prelude::*;

use crate::access::{
    access_outcome, clients_after_landing, landing_creates, pause_outcome, shown_data,
};
use crate::client_timer::{
    expired, is_authenticated, reconciled, still_active, ticked_seconds, unknown_authenticated,
    vanished,
};
use crate::codes::{is_ascii_alphanumeric, is_code_char, is_generated_code, shown_code, CODE_LENGTH};
use crate::credits::{
    credits_after, purchase_in_range, purchased, redeem_result, redeemed, spend_outcome, Redemption,
};
use crate::extensions::after_last_dot;
use crate::rejection::Rejection;
use crate::responders::{decimal, decimal_value, is_digit};
use crate::text::ascii_upper;
use crate::types::{ClientRecord, PlanRecord, RawClientData, RedeemableCode};

verus! {

/// Every open connection has at least one second left.
pub open spec fn seconds_positive(active: Map<Seq<char>, i32>) -> bool {
    forall|k: Seq<char>| #[trigger] active.contains_key(k) ==> active[k] > 0
}

/// A granted request for access followed by a pause of the same client's
/// connection is granted too, and leaves the table of open connections as it
/// was before the request.
pub proof fn pause_undoes_access(active: Map<Seq<char>, i32>, client: ClientRecord)
    requires
        access_outcome(active, Some(client)).0 is Ok,
    ensures
        pause_outcome(access_outcome(active, Some(client)).1, client.mac@) == (
            Ok::<(), Rejection>(()),
            active,
        ),
{
    assert(active.insert(client.mac@, client.remaining_seconds).remove(client.mac@) =~= active);
}

/// A refused request for access, and a refused pause, leave the table of
/// open connections as it was.
pub proof fn refusals_change_nothing(active: Map<Seq<char>, i32>, client: Option<ClientRecord>, mac: Seq<char>)
    ensures
        access_outcome(active, client).0 is Err ==> access_outcome(active, client).1 == active,
        pause_outcome(active, mac).0 is Err ==> pause_outcome(active, mac).1 == active,
{
}

/// Once a request for access is granted, the same request is refused as
/// already active.
pub proof fn second_request_refused(active: Map<Seq<char>, i32>, client: ClientRecord)
    requires
        access_outcome(active, Some(client)).0 is Ok,
    ensures
        access_outcome(access_outcome(active, Some(client)).1, Some(client)).0 == Err::<(), Rejection>(
            Rejection::AlreadyActive,
        ),
{
}

/// Every operation on the table of open connections keeps each open
/// connection with at least one second left: a granted request, a pause and a
/// reconciliation with the gateway keep it, and a tick of the timer makes it
/// so whatever the table held before.
pub proof fn open_connections_keep_seconds(
    active: Map<Seq<char>, i32>,
    client: Option<ClientRecord>,
    mac: Seq<char>,
    stored: Map<Seq<char>, i32>,
    clients: Map<Seq<char>, RawClientData>,
)
    ensures
        seconds_positive(active) ==> seconds_positive(access_outcome(active, client).1),
        seconds_positive(active) ==> seconds_positive(pause_outcome(active, mac).1),
        seconds_positive(active) ==> seconds_positive(reconciled(active, clients)),
        seconds_positive(still_active(active, stored)),
{
}

/// A tick of the timer splits the connections that were open into those that
/// stay open and those that it ends; each that stays open keeps exactly the
/// seconds written back to the store for it.
pub proof fn tick_splits_connections(active: Map<Seq<char>, i32>, stored: Map<Seq<char>, i32>)
    ensures
        forall|k: Seq<char>|
            #![trigger still_active(active, stored).contains_key(k)]
            #![trigger expired(active, stored).contains(k)]
            active.contains_key(k) <==> (still_active(active, stored).contains_key(k) || expired(
                active,
                stored,
            ).contains(k)),
        forall|k: Seq<char>| #![trigger expired(active, stored).contains(k)]
            !(still_active(active, stored).contains_key(k) && expired(active, stored).contains(k)),
        forall|k: Seq<char>| #[trigger]
            still_active(active, stored).contains_key(k) ==> still_active(active, stored)[k]
                == ticked_seconds(active, stored)[k],
{
}

/// After a reconciliation every open connection is one that the gateway
/// reports authenticated; a second reconciliation with the same report
/// changes the table no more, finds no vanished connection, and ends the
/// same unknown authenticated clients again.
pub proof fn reconciliation_settles(users: Map<Seq<char>, i32>, clients: Map<Seq<char>, RawClientData>)
    ensures
        forall|k: Seq<char>| #[trigger]
            reconciled(users, clients).contains_key(k) ==> is_authenticated(clients, k),
        reconciled(reconciled(users, clients), clients) == reconciled(users, clients),
        vanished(reconciled(users, clients), clients) == Set::<Seq<char>>::empty(),
        unknown_authenticated(reconciled(users, clients), clients) == unknown_authenticated(
            users,
            clients,
        ),
{
    assert(reconciled(reconciled(users, clients), clients) =~= reconciled(users, clients));
    assert(vanished(reconciled(users, clients), clients) =~= Set::<Seq<char>>::empty());
    assert(unknown_authenticated(reconciled(users, clients), clients) =~= unknown_authenticated(
        users,
        clients,
    ));
}

/// A granted purchase never leaves the client with fewer than no credits,
/// and keeps the client's identity.
pub proof fn purchase_keeps_credits(client: ClientRecord, plan: PlanRecord)
    requires
        credits_after(client, plan) >= 0,
    ensures
        purchased(client, plan).credits >= 0,
        purchased(client, plan).mac == client.mac,
        purchased(client, plan).id == client.id,
{
}

/// Where no sum leaves the range of `i32`, a granted purchase moves exactly
/// the plan's price and seconds.
pub proof fn purchase_moves_price(client: ClientRecord, plan: PlanRecord)
    requires
        purchase_in_range(client, plan),
        credits_after(client, plan) >= 0,
    ensures
        purchased(client, plan).credits + plan.credit_cost == client.credits,
        purchased(client, plan).remaining_seconds - plan.seconds_given == client.remaining_seconds,
        purchased(client, plan).mac == client.mac,
        purchased(client, plan).id == client.id,
{
}

/// Redeeming a code changes only the client's seconds, by the code's units.
pub proof fn redeeming_adds_units(client: ClientRecord, units: i32)
    requires
        i32::MIN <= client.remaining_seconds + units <= i32::MAX,
    ensures
        redeemed(client, units).remaining_seconds == client.remaining_seconds + units,
        redeemed(client, units).credits == client.credits,
        redeemed(client, units).mac == client.mac,
        redeemed(client, units).id == client.id,
{
}

/// Writing a number in decimal and reading it back gives the number; the
/// digits are ASCII digits, at least one, with no leading zero.
pub proof fn decimal_round_trip(n: nat)
    ensures
        decimal_value(decimal(n)) == n,
        decimal(n).len() >= 1,
        forall|i: int| 0 <= i < decimal(n).len() ==> is_digit(#[trigger] decimal(n)[i]),
        n > 0 ==> decimal(n)[0] != 48,
    decreases n,
{
    if n >= 10 {
        decimal_round_trip(n / 10);
        let d = decimal(n / 10);
        assert(decimal(n).drop_last() =~= d);
        assert forall|i: int| 0 <= i < decimal(n).len() implies is_digit(#[trigger] decimal(n)[i]) by {
            if i < d.len() {
                assert(decimal(n)[i] == d[i]);
            }
        }
        assert(decimal(n)[0] == d[0]);
        assert(decimal(n).last() == 48 + n % 10);
        assert(decimal_value(decimal(n)) == decimal_value(d) * 10 + n % 10);
        assert((n / 10) * 10 + n % 10 == n);
        assert(decimal_value(decimal(n)) == n);
    } else {
        assert(decimal(n).drop_last() =~= Seq::<u8>::empty());
        assert(decimal(n).last() == 48 + n);
        assert(decimal_value(decimal(n).drop_last()) == 0);
        assert(decimal_value(decimal(n)) == n);
    }
}

/// The last piece of a text split at `.` holds no `.`, ends the text, and is
/// all of the text exactly where the text holds no `.`; where the text holds
/// a `.`, the character just before the piece is a `.`.
pub proof fn last_piece_of_text(s: Seq<char>)
    ensures
        !after_last_dot(s).contains('.'),
        after_last_dot(s).len() <= s.len(),
        after_last_dot(s) =~= s.skip(s.len() - after_last_dot(s).len()),
        after_last_dot(s) == s <==> !s.contains('.'),
        s.contains('.') ==> after_last_dot(s).len() < s.len() && s[s.len() - after_last_dot(s).len()
            - 1] == '.',
    decreases s.len(),
{
    if s.len() > 0 {
        last_piece_of_text(s.drop_last());
        if s.last() == '.' {
            assert(s.contains('.')) by {
                assert(s[s.len() - 1] == '.');
            }
            assert(after_last_dot(s).len() == 0);
            assert(after_last_dot(s) != s);
        } else {
            let p = after_last_dot(s.drop_last());
            assert(s.drop_last().skip(s.drop_last().len() - p.len()).push(s.last()) =~= s.skip(
                s.len() - p.len() - 1,
            ));
            assert(!after_last_dot(s).contains('.')) by {
                if after_last_dot(s).contains('.') {
                    let i = choose|i: int| 0 <= i < after_last_dot(s).len() && after_last_dot(s)[i] == '.';
                    if i < p.len() {
                        assert(p[i] == '.');
                    }
                }
            }
            if s.contains('.') {
                let i = choose|i: int| 0 <= i < s.len() && s[i] == '.';
                assert(s.drop_last()[i] == '.');
                assert(s.drop_last().contains('.'));
            }
            if s.drop_last().contains('.') {
                let i = choose|i: int| 0 <= i < s.drop_last().len() && s.drop_last()[i] == '.';
                assert(s[i] == '.');
                assert(after_last_dot(s).len() < s.len()) by {
                    assert(p.len() < s.drop_last().len()) by {
                        assert(p != s.drop_last());
                    }
                }
            } else {
                assert(s.drop_last().push(s.last()) =~= s);
            }
        }
    }
}

/// Making a byte upper-case twice is making it upper-case once, and a shown
/// code has one character for each stored byte.
pub proof fn upper_case_settles(b: u8, code: Seq<u8>)
    ensures
        ascii_upper(ascii_upper(b)) == ascii_upper(b),
        shown_code(code).len() == code.len(),
{
}

/// The landing page creates at most one client per MAC address: after a
/// visit the store holds a client for the address, and a second visit creates
/// none and leaves the store as the first left it.
pub proof fn landing_creates_once(store: Set<Seq<char>>, mac: Seq<char>)
    ensures
        clients_after_landing(store, mac).contains(mac),
        !landing_creates(clients_after_landing(store, mac).contains(mac)),
        clients_after_landing(clients_after_landing(store, mac), mac) == clients_after_landing(
            store,
            mac,
        ),
{
}

/// A code is credited at most once: where `code` is the one stored code that
/// the redeemed text matches, a granted redemption spends it, after which no
/// stored code matches the text, and redeeming the text again is refused as
/// not found and credits nothing.
pub proof fn code_credited_once(matching: Set<i32>, code: RedeemableCode, client: ClientRecord)
    requires
        matching == Set::<i32>::empty().insert(code.id),
    ensures
        redeem_result(Some(code), Some(client)) matches Ok(r) && matching.remove(r.spent_code)
            == Set::<i32>::empty(),
        redeem_result(None, Some(client)) == Err::<Redemption, Rejection>(
            Rejection::NotFound,
        ),
{
    assert(matching.remove(code.id) =~= Set::<i32>::empty());
}

/// A generated code has ten characters, each an ASCII digit or upper-case
/// letter.
pub proof fn generated_code_shape(code: Seq<char>)
    requires
        is_generated_code(code),
    ensures
        code.len() == CODE_LENGTH,
        forall|i: int| 0 <= i < code.len() ==> is_code_char(#[trigger] code[i]),
{
    let draws = choose|draws: Seq<u8>|
        {
            &&& draws.len() == CODE_LENGTH
            &&& forall|i: int| 0 <= i < draws.len() ==> is_ascii_alphanumeric(#[trigger] draws[i])
            &&& code == shown_code(draws)
        };
    assert forall|i: int| 0 <= i < code.len() implies is_code_char(#[trigger] code[i]) by {
        assert(is_ascii_alphanumeric(draws[i]));
        assert(code[i] == ascii_upper(draws[i]) as char);
    }
}

/// A tick takes exactly one second from each open connection: where the
/// store's seconds for an open connection can be lowered by one without
/// leaving the range of `i32`, the seconds written back are one less than
/// stored; the connection stays open with those seconds exactly when they are
/// above zero, and is ended exactly when they are not. Nothing is written for
/// a connection that was not open.
pub proof fn tick_takes_one_second(active: Map<Seq<char>, i32>, stored: Map<Seq<char>, i32>)
    ensures
        forall|k: Seq<char>| #[trigger]
            ticked_seconds(active, stored).contains_key(k) <==> active.contains_key(k),
        forall|k: Seq<char>|
            active.contains_key(k) && stored[k] > i32::MIN ==> #[trigger] ticked_seconds(
                active,
                stored,
            )[k] == stored[k] - 1,
        forall|k: Seq<char>|
            active.contains_key(k) && stored[k] > i32::MIN ==> (#[trigger] still_active(
                active,
                stored,
            ).contains_key(k) <==> stored[k] - 1 > 0),
        forall|k: Seq<char>|
            active.contains_key(k) && stored[k] - 1 > 0 ==> #[trigger] still_active(active, stored)[k]
                == stored[k] - 1,
        forall|k: Seq<char>|
            active.contains_key(k) && stored[k] > i32::MIN ==> (#[trigger] expired(
                active,
                stored,
            ).contains(k) <==> stored[k] - 1 <= 0),
        forall|k: Seq<char>| !active.contains_key(k) ==> !#[trigger] still_active(
            active,
            stored,
        ).contains_key(k) && !expired(active, stored).contains(k),
{
}

/// A pause is granted exactly when the MAC address has an open connection,
/// whatever other connections are open. A granted pause closes that
/// connection and leaves every other as it was; a refused one is refused as
/// not active and changes nothing.
pub proof fn pause_closes_only_open_connection(active: Map<Seq<char>, i32>, mac: Seq<char>)
    ensures
        !active.contains_key(mac) ==> pause_outcome(active, mac) == (
            Err::<(), Rejection>(Rejection::NotActive),
            active,
        ),
        active.contains_key(mac) ==> pause_outcome(active, mac).0 == Ok::<(), Rejection>(()),
        !pause_outcome(active, mac).1.contains_key(mac),
        forall|k: Seq<char>|
            k != mac ==> (#[trigger] pause_outcome(active, mac).1.contains_key(k)
                <==> active.contains_key(k)),
        forall|k: Seq<char>|
            k != mac && active.contains_key(k) ==> #[trigger] pause_outcome(active, mac).1[k]
                == active[k],
{
}

/// A request for access is refused as unknown where the store holds no
/// client, as having no second where the client's seconds are not above zero,
/// and as already active where its connection is open; otherwise it is
/// granted, and the client's connection is opened with all its stored
/// seconds while every other connection stays as it was.
pub proof fn access_opens_only_the_client(active: Map<Seq<char>, i32>, c: ClientRecord)
    ensures
        access_outcome(active, None) == (Err::<(), Rejection>(Rejection::UnknownClient), active),
        c.remaining_seconds <= 0 ==> access_outcome(active, Some(c)) == (
            Err::<(), Rejection>(Rejection::NoRemainingSeconds),
            active,
        ),
        c.remaining_seconds > 0 && active.contains_key(c.mac@) ==> access_outcome(active, Some(c))
            == (Err::<(), Rejection>(Rejection::AlreadyActive), active),
        c.remaining_seconds > 0 && !active.contains_key(c.mac@) ==> {
            &&& access_outcome(active, Some(c)).0 == Ok::<(), Rejection>(())
            &&& access_outcome(active, Some(c)).1.contains_key(c.mac@)
            &&& access_outcome(active, Some(c)).1[c.mac@] == c.remaining_seconds
            &&& forall|k: Seq<char>|
                k != c.mac@ ==> (#[trigger] access_outcome(active, Some(c)).1.contains_key(k)
                    <==> active.contains_key(k))
            &&& forall|k: Seq<char>|
                k != c.mac@ && active.contains_key(k) ==> #[trigger] access_outcome(
                    active,
                    Some(c),
                ).1[k] == active[k]
        },
{
}

/// A purchase is refused exactly when the credits less the price fall below
/// zero. Where that difference lies in the range of `i32`: a negative one is
/// refused as not enough credits, and any other is granted with the
/// difference as the client's credits, the plan's seconds added to the
/// client's (where the sum lies in the range of `i32`), and the client's id
/// and MAC address kept.
pub proof fn purchase_takes_price(client: ClientRecord, plan: PlanRecord)
    ensures
        i32::MIN <= client.credits - plan.credit_cost < 0 ==> spend_outcome(client, plan) == Err::<
            ClientRecord,
            Rejection,
        >(Rejection::NotEnoughCredits),
        0 <= client.credits - plan.credit_cost <= i32::MAX ==> {
            &&& spend_outcome(client, plan) matches Ok(after)
            &&& after.credits == client.credits - plan.credit_cost
            &&& after.id == client.id
            &&& after.mac == client.mac
            &&& i32::MIN <= client.remaining_seconds + plan.seconds_given <= i32::MAX
                ==> after.remaining_seconds == client.remaining_seconds + plan.seconds_given
        },
{
}

/// Redeeming a code that the store holds credits its units to the client's
/// seconds (where the sum lies in the range of `i32`), keeps the client's id,
/// MAC address and credits, and spends exactly that code; a code that the
/// store does not hold is refused as not found.
pub proof fn redemption_credits_units(code: RedeemableCode, client: ClientRecord)
    ensures
        redeem_result(None, Some(client)) == Err::<Redemption, Rejection>(Rejection::NotFound),
        redeem_result(Some(code), Some(client)) matches Ok(r) && r.spent_code == code.id
            && r.client.id == client.id && r.client.mac == client.mac && r.client.credits
            == client.credits,
        i32::MIN <= client.remaining_seconds + code.units <= i32::MAX ==> (redeem_result(
            Some(code),
            Some(client),
        ) matches Ok(r) && r.client.remaining_seconds == client.remaining_seconds + code.units),
{
}

/// The account data shows the stored client as it is, whether or not its
/// connection is open: its id, MAC address, credits and seconds unchanged,
/// and whether the connection of the looked-up MAC address is open.
pub proof fn account_data_shows_stored_client(client: ClientRecord, mac: Seq<char>, active: Map<Seq<char>, i32>)
    ensures
        shown_data(client, mac, active).id == client.id,
        shown_data(client, mac, active).mac == client.mac,
        shown_data(client, mac, active).credits == client.credits,
        shown_data(client, mac, active).remaining_seconds == client.remaining_seconds,
        shown_data(client, mac, active).active == active.contains_key(mac),
{
}

/// Upper-casing changes exactly the ASCII lower-case letters, each to the
/// byte 32 below, and leaves every other byte as it is; a shown code has, at
/// each place, the character of the stored byte so changed.
pub proof fn upper_case_changes_only_lower_case(b: u8, code: Seq<u8>)
    ensures
        !(97 <= b <= 122) ==> ascii_upper(b) == b,
        97 <= b <= 122 ==> ascii_upper(b) == b - 32,
        shown_code(code).len() == code.len(),
        forall|i: int|
            0 <= i < code.len() && !(97 <= code[i] <= 122) ==> #[trigger] shown_code(code)[i]
                == code[i] as char,
        forall|i: int|
            0 <= i < code.len() && 97 <= code[i] <= 122 ==> #[trigger] shown_code(code)[i] == (
            code[i] - 32) as u8 as char,
{
}

/// The gateway's report decides reconciliation by each client's state: an
/// open connection stays, with its seconds, exactly when the gateway reports
/// the client with the state `Authenticated`; a client counts as unknown and
/// authenticated exactly when the gateway reports it so and it has no open
/// connection; a connection counts as vanished exactly when it is open and
/// the gateway does not report it.
pub proof fn reconciliation_follows_report(
    users: Map<Seq<char>, i32>,
    clients: Map<Seq<char>, RawClientData>,
)
    ensures
        forall|k: Seq<char>| #[trigger]
            reconciled(users, clients).contains_key(k) <==> (users.contains_key(k)
                && clients.contains_key(k) && clients[k].state@ == "Authenticated"@),
        forall|k: Seq<char>| #[trigger]
            reconciled(users, clients).contains_key(k) ==> reconciled(users, clients)[k] == users[k],
        forall|k: Seq<char>| #[trigger]
            unknown_authenticated(users, clients).contains(k) <==> (!users.contains_key(k)
                && clients.contains_key(k) && clients[k].state@ == "Authenticated"@),
        forall|k: Seq<char>| #[trigger]
            vanished(users, clients).contains(k) <==> (users.contains_key(k)
                && !clients.contains_key(k)),
{
}

/// The landing page creates a client exactly where the store holds none for
/// the MAC address.
pub proof fn landing_creates_only_unknown(client_known: bool)
    ensures
        landing_creates(client_known) <==> !client_known,
{
}

/// Decimal digits are written most significant first: appending a digit
/// `d` to the digits of a positive `n` writes `10 * n + d`, and a number
/// below ten is its one digit.
pub proof fn decimal_appends_last_digit(n: nat, d: nat)
    requires
        d < 10,
    ensures
        n > 0 ==> decimal(10 * n + d) == decimal(n).push((48 + d) as u8),
        decimal(d) == seq![(48 + d) as u8],
{
    if n > 0 {
        assert((10 * n + d) / 10 == n);
        assert((10 * n + d) % 10 == d);
    }
}

/// The status and text of each refusal: not found is 404 with no text, no
/// randomness is 500 with "Server Error", every other refusal is 403 with its
/// own text.
pub proof fn refusal_status_and_text(r: Rejection)
    ensures
        r.spec_status() == 404 <==> r == Rejection::NotFound,
        r.spec_status() == 500 <==> r == Rejection::NoRandomness,
        r.spec_status() == 403 <==> (r != Rejection::NotFound && r != Rejection::NoRandomness),
        r == Rejection::NotAdmin ==> r.spec_message()
            == "You are not an admin, this incident will be reported"@,
        r == Rejection::UnknownClient ==> r.spec_message() == "Forbidden: Report sent to admin"@,
        r == Rejection::NoRemainingSeconds ==> r.spec_message()
            == "No Remaining Seconds: Purchase a plan"@,
        r == Rejection::AlreadyActive ==> r.spec_message() == "Already Active"@,
        r == Rejection::NotActive ==> r.spec_message() == "Connection Not Active"@,
        r == Rejection::NotEnoughCredits ==> r.spec_message() == "Not enough credits"@,
        r == Rejection::NotFound ==> r.spec_message() == ""@,
        r == Rejection::NoRandomness ==> r.spec_message() == "Server Error"@,
{
}

} // verus!
