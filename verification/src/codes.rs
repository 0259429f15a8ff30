use vstd::prelude::*;

use crate::access::require_admin;
use crate::rejection::Rejection;
use crate::text::{ascii_upper, push_char, to_ascii_uppercase};
use crate::types::{CodeData, RedeemableCode};

verus! {

/// An ASCII digit or letter.
pub open spec fn is_ascii_alphanumeric(b: u8) -> bool {
    (48 <= b <= 57) || (65 <= b <= 90) || (97 <= b <= 122)
}

/// A character that a generated code may hold: an ASCII digit or upper-case
/// letter.
pub open spec fn is_code_char(c: char) -> bool {
    ('0' <= c <= '9') || ('A' <= c <= 'Z')
}

/// The number of characters of a generated code.
pub const CODE_LENGTH: usize = 10;

/// The text of a code made of the bytes `code`: each byte made upper-case
/// where it is an ASCII letter, then read as the character of that number.
pub open spec fn shown_code(code: Seq<u8>) -> Seq<char> {
    code.map_values(|b: u8| ascii_upper(b) as char)
}

/// A text that drawing a code can give: ten ASCII digits or letters, drawn in
/// turn, with the letters made upper-case.
pub open spec fn is_generated_code(code: Seq<char>) -> bool {
    exists|draws: Seq<u8>|
        {
            &&& draws.len() == CODE_LENGTH
            &&& forall|i: int| 0 <= i < draws.len() ==> is_ascii_alphanumeric(#[trigger] draws[i])
            &&& code == shown_code(draws)
        }
}

#[verifier::external_type_specification]
#[verifier::external_body]
pub struct ExStdRng(rand::rngs::StdRng);

#[verifier::external_type_specification]
#[verifier::external_body]
pub struct ExRandError(rand::Error);

/// `<rand::rngs::StdRng as rand::SeedableRng>::from_rng(rand::rngs::OsRng)`
/// (rand 0.8.8): a generator seeded from the operating system, or the error
/// that the operating system gave instead. The seed is a matter of chance, so
/// nothing is stated of the generator.
#[verifier::external_body]
fn seed_generator() -> (r: Result<rand::rngs::StdRng, rand::Error>) {
    <rand::rngs::StdRng as rand::SeedableRng>::from_rng(rand::rngs::OsRng)
}

/// `rand::Rng::sample(rng, rand::distributions::Alphanumeric)` (rand 0.8.8):
/// one byte drawn from `A`-`Z`, `a`-`z` and `0`-`9`, as the distribution's
/// source shows. Which byte comes depends on the generator's state, which is
/// a matter of chance, so the contract says only that it is one of these. A
/// `StdRng` (ChaCha) draws without reseeding and does not fail.
#[verifier::external_body]
fn sample_alphanumeric(rng: &mut rand::rngs::StdRng) -> (b: u8)
    ensures
        is_ascii_alphanumeric(b),
{
    rand::Rng::sample(rng, rand::distributions::Alphanumeric)
}

/// The text of the code made of the bytes `draws`.
pub fn code_from_draws(draws: &Vec<u8>) -> (r: String)
    ensures
        r@ == shown_code(draws@),
{
    let mut text = String::new();
    let mut k: usize = 0;
    while k < draws.len()
        invariant
            k <= draws@.len(),
            text@ == shown_code(draws@.take(k as int)),
        decreases draws@.len() - k,
    {
        let b = to_ascii_uppercase(draws[k]);
        push_char(&mut text, b as char);
        proof {
            assert(shown_code(draws@.take(k + 1)) =~= shown_code(draws@.take(k as int)).push(
                b as char,
            ));
        }
        k = k + 1;
    }
    proof {
        assert(draws@.take(k as int) =~= draws@);
    }
    text
}

/// A fresh random code: ten ASCII digits or letters drawn from a generator
/// seeded by the operating system, made into a code, or a failure where the
/// operating system gives no seed.
pub fn draw_code() -> (r: Result<String, Rejection>)
    ensures
        match r {
            Ok(c) => is_generated_code(c@),
            Err(e) => e == Rejection::NoRandomness,
        },
{
    let mut rng = match seed_generator() {
        Ok(rng) => rng,
        Err(_) => {
            return Err(Rejection::NoRandomness);
        },
    };
    let mut draws: Vec<u8> = Vec::new();
    let mut i: usize = 0;
    while i < CODE_LENGTH
        invariant
            i <= CODE_LENGTH,
            draws@.len() == i,
            forall|j: int| 0 <= j < draws@.len() ==> is_ascii_alphanumeric(#[trigger] draws@[j]),
        decreases CODE_LENGTH - i,
    {
        let b = sample_alphanumeric(&mut rng);
        draws.push(b);
        i = i + 1;
    }
    let code = code_from_draws(&draws);
    proof {
        assert(draws@.len() == CODE_LENGTH);
    }
    Ok(code)
}

/// A fresh random code for an administrator's session. A session without the
/// administrator mark is refused; otherwise the code is drawn as `draw_code`
/// draws it.
pub fn gen_code(session_admin: Option<bool>) -> (r: Result<String, Rejection>)
    ensures
        session_admin is None ==> r == Err::<String, Rejection>(Rejection::NotAdmin),
        session_admin is Some ==> match r {
            Ok(c) => is_generated_code(c@),
            Err(e) => e == Rejection::NoRandomness,
        },
{
    require_admin(session_admin)?;
    draw_code()
}

/// A code that the store is to hold.
pub struct NewCode {
    pub code: String,
    pub kind: String,
    pub units: i32,
}

/// What follows a drawn code: drawing again, or storing it.
pub enum CodeStep {
    DrawAgain,
    Store(NewCode),
}

/// Decides what follows a drawn code `candidate`, given whether the store
/// already holds a code that it matches (`taken`): a taken code is drawn
/// again; a new one is stored with the requested kind and units.
pub fn code_step(candidate: String, taken: bool, kind: String, units: i32) -> (r: CodeStep)
    ensures
        taken ==> r is DrawAgain,
        !taken ==> (r matches CodeStep::Store(n) && n.code@ == candidate@ && n.kind@ == kind@
            && n.units == units),
{
    if taken {
        CodeStep::DrawAgain
    } else {
        CodeStep::Store(NewCode { code: candidate, kind, units })
    }
}

/// The listing of stored codes that an administrator is shown, in the
/// store's order.
pub fn code_listing(codes: &Vec<RedeemableCode>) -> (r: Vec<CodeData>)
    ensures
        r@.len() == codes@.len(),
        forall|i: int|
            0 <= i < codes@.len() ==> {
                &&& (#[trigger] r@[i]).id == codes@[i].id
                &&& r@[i].code@ == shown_code(codes@[i].code@)
                &&& r@[i].kind@ == codes@[i].kind@
                &&& r@[i].units == codes@[i].units
            },
{
    let mut listing: Vec<CodeData> = Vec::new();
    let mut i: usize = 0;
    while i < codes.len()
        invariant
            i <= codes@.len(),
            listing@.len() == i,
            forall|j: int|
                0 <= j < i ==> {
                    &&& (#[trigger] listing@[j]).id == codes@[j].id
                    &&& listing@[j].code@ == shown_code(codes@[j].code@)
                    &&& listing@[j].kind@ == codes@[j].kind@
                    &&& listing@[j].units == codes@[j].units
                },
        decreases codes@.len() - i,
    {
        let raw = &codes[i];
        let text = code_from_draws(&raw.code);
        listing.push(CodeData { id: raw.id, code: text, kind: raw.kind.clone(), units: raw.units });
        i = i + 1;
    }
    listing
}

} // verus!
