//! Chance.

use rand::prelude::SliceRandom;
use rand::Rng;
use uuid::Uuid;
use vstd::prelude::*;

verus! {

/// `SliceRandom::choose` with the thread's generator: one of the texts, none
/// when there are none. Which one is left to chance.
#[verifier::external_body]
pub(crate) fn choose_text(items: &Vec<String>) -> (r: Option<String>)
    ensures
        match r {
            Some(s) => crate::text::texts_of(items@).contains(s@),
            None => items@.len() == 0,
        },
{
    items.choose(&mut rand::thread_rng()).cloned()
}

/// `Rng::gen_range` with the thread's generator, over the numbers from `low`
/// to `high`: one of them. Which one is left to chance.
#[verifier::external_body]
pub(crate) fn random_between(low: i128, high: i128) -> (r: i128)
    requires
        low <= high,
    ensures
        low <= r <= high,
{
    rand::thread_rng().gen_range(low..=high)
}

/// Is this a digit of a number to the base sixteen, in lower case?
pub open spec fn is_hex_digit(c: char) -> bool {
    '0' <= c <= '9' || 'a' <= c <= 'f'
}

/// The shape of a random identifier: five groups of digits with hyphens
/// between them, with the digit that says that it is random and the digit that
/// says how it is laid out.
pub open spec fn is_random_id(s: Seq<char>) -> bool {
    &&& s.len() == 36
    &&& forall|i: int|
        0 <= i < 36 ==> if i == 8 || i == 13 || i == 18 || i == 23 {
            #[trigger] s[i] == '-'
        } else {
            is_hex_digit(s[i])
        }
    &&& s[14] == '4'
    &&& s[19] == '8' || s[19] == '9' || s[19] == 'a' || s[19] == 'b'
}

/// `Uuid::new_v4` as text: an identifier of the fourth version, in groups of
/// 8, 4, 4, 4 and 12 digits in lower case, with hyphens between them. But for
/// the digits of version and variant, they are left to chance.
#[verifier::external_body]
pub(crate) fn random_id() -> (r: String)
    ensures
        is_random_id(r@),
{
    Uuid::new_v4().to_string()
}

} // verus!
