//! Mock values: the e-mail address made afresh for each line, and the fixed
//! phone number.

use rand::distributions::Alphanumeric;
use rand::rngs::StdRng;
use rand::Rng;
use vstd::prelude::*;
use vstd::string::StringExecFns;

verus! {

/// How many random characters stand before the domain of a mock e-mail.
pub const ADDRESS_LEN: usize = 10;

/// The domain that every mock e-mail ends in, with its `@`.
pub const MOCK_DOMAIN: &'static str = "@test.com";

/// The phone number that stands in for every phone number.
pub const MOCK_PHONE: &'static str = "5555555555";

/// The rand crate's standard generator: seeded once, it goes on from its own
/// state alone. Its inside is hidden.
#[verifier::external_type_specification]
#[verifier::external_body]
pub struct ExStdRng(rand::rngs::StdRng);

/// An ASCII digit or an ASCII letter of either case.
pub open spec fn is_alphanumeric(c: char) -> bool {
    ('0' <= c <= '9') || ('A' <= c <= 'Z') || ('a' <= c <= 'z')
}

/// Ten characters, each alphanumeric: what stands before the `@` of a mock
/// e-mail.
pub open spec fn is_mock_address(address: Seq<char>) -> bool {
    &&& address.len() == ADDRESS_LEN
    &&& forall|i: int| 0 <= i < address.len() ==> is_alphanumeric(#[trigger] address[i])
}

/// The shape of a mock e-mail: a mock address, then the mock domain.
pub open spec fn is_mock_email(email: Seq<char>) -> bool {
    &&& email.len() == ADDRESS_LEN + MOCK_DOMAIN@.len()
    &&& is_mock_address(email.take(ADDRESS_LEN as int))
    &&& email.skip(ADDRESS_LEN as int) == MOCK_DOMAIN@
}

/// `Rng::sample` with the distribution `Alphanumeric`, which draws a byte
/// from the generator. Trusted: the byte is one of `A-Z`, `a-z`, `0-9`, the
/// set the distribution picks from. Which one is left open.
#[verifier::external_body]
fn sample_alphanumeric(rng: &mut StdRng) -> (b: u8)
    ensures
        is_alphanumeric(b as char),
{
    rng.sample(Alphanumeric)
}

/// `String::push`. Trusted: the character is appended and nothing else
/// changes.
pub assume_specification[ String::push ](s: &mut String, ch: char)
    ensures
        final(s)@ == old(s)@.push(ch),
;

/// Draws the ten characters of a mock address from the generator, one by one.
pub fn random_address(rng: &mut StdRng) -> (address: String)
    ensures
        is_mock_address(address@),
{
    let mut address = String::new();
    let mut drawn: usize = 0;
    while drawn < ADDRESS_LEN
        invariant
            drawn <= ADDRESS_LEN,
            address@.len() == drawn,
            forall|i: int| 0 <= i < address@.len() ==> is_alphanumeric(#[trigger] address@[i]),
        decreases ADDRESS_LEN - drawn,
    {
        let b = sample_alphanumeric(rng);
        address.push(b as char);
        drawn += 1;
    }
    address
}

/// The e-mail that a given address makes at the mock domain.
pub fn at_mock_domain(address: &str) -> (email: String)
    ensures
        email@ == address@ + MOCK_DOMAIN@,
{
    let mut email = address.to_owned();
    email.append(MOCK_DOMAIN);
    email
}

/// A fresh mock e-mail: ten random alphanumeric characters at the mock domain.
pub fn mock_email(rng: &mut StdRng) -> (email: String)
    ensures
        is_mock_email(email@),
{
    let address = random_address(rng);
    let email = at_mock_domain(address.as_str());
    proof {
        assert(email@.take(ADDRESS_LEN as int) =~= address@);
        assert(email@.skip(ADDRESS_LEN as int) =~= MOCK_DOMAIN@);
    }
    email
}

} // verus!
