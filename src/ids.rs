//! Random room codes and player ids.
use vstd::prelude::*;

use rand::distributions::DistString;
use rand::Rng;

verus! {

/// Length of a room code.
pub const CODE_LEN: usize = 4;

/// Length of a player id.
pub const PLAYER_ID_LEN: usize = 8;

pub open spec fn is_lowercase_letter(c: char) -> bool {
    'a' <= c && c <= 'z'
}

pub open spec fn is_ascii_alphanumeric(c: char) -> bool {
    ('a' <= c && c <= 'z') || ('A' <= c && c <= 'Z') || ('0' <= c && c <= '9')
}

/// A room code: four lowercase ASCII letters.
pub open spec fn is_room_code(s: Seq<char>) -> bool {
    &&& s.len() == CODE_LEN
    &&& forall|k: int| 0 <= k < s.len() ==> is_lowercase_letter(#[trigger] s[k])
}

/// A player id: eight ASCII letters or digits.
pub open spec fn is_player_id(s: Seq<char>) -> bool {
    &&& s.len() == PLAYER_ID_LEN
    &&& forall|k: int| 0 <= k < s.len() ==> is_ascii_alphanumeric(#[trigger] s[k])
}

/// Relies on rand's `Rng::gen_range` over an inclusive `char` range: the
/// result lies in the range.
#[verifier::external_body]
fn random_lowercase_letter() -> (r: char)
    ensures
        is_lowercase_letter(r),
{
    rand::thread_rng().gen_range('a'..='z')
}

/// Relies on `String::push`: the character is appended at the end.
#[verifier::external_body]
fn push_char(s: &mut String, c: char)
    ensures
        final(s)@ == old(s)@.push(c),
{
    s.push(c)
}

/// Relies on rand's `DistString::sample_string` for `Alphanumeric`: `len`
/// characters, each an ASCII letter or digit.
#[verifier::external_body]
fn random_alphanumeric(len: usize) -> (r: String)
    ensures
        r@.len() == len,
        forall|k: int| 0 <= k < r@.len() ==> is_ascii_alphanumeric(#[trigger] r@[k]),
{
    rand::distributions::Alphanumeric.sample_string(&mut rand::thread_rng(), len)
}

/// A fresh random room code. Codes already in use are not avoided.
pub fn generate_room_code() -> (r: String)
    ensures
        is_room_code(r@),
{
    let mut code = String::new();
    let mut k: usize = 0;
    while k < CODE_LEN
        invariant
            k <= CODE_LEN,
            code@.len() == k,
            forall|j: int| 0 <= j < code@.len() ==> is_lowercase_letter(#[trigger] code@[j]),
        decreases CODE_LEN - k,
    {
        let c = random_lowercase_letter();
        push_char(&mut code, c);
        k = k + 1;
    }
    code
}

/// A fresh random player id. Ids already in use are not avoided.
pub fn generate_player_id() -> (r: String)
    ensures
        is_player_id(r@),
{
    random_alphanumeric(PLAYER_ID_LEN)
}

} // verus!
