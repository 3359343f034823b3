//! Account-identifier validation, per the identity rules of the hosting
//! environment: 2 to 64 characters, lowercase letters and digits, with
//! `-`, `_` and `.` allowed only between two alphanumeric characters.
use vstd::prelude::*;

verus! {

/// A character the identity rules accept at all.
pub open spec fn valid_account_char(c: char) -> bool {
    ('a' <= c && c <= 'z') || ('0' <= c && c <= '9') || account_char_is_separator(c)
}

/// A separator character: it may not begin or end an identifier, and two
/// may not stand next to each other.
pub open spec fn account_char_is_separator(c: char) -> bool {
    c == '-' || c == '_' || c == '.'
}

/// The identity-validation rule of the hosting environment.
pub open spec fn valid_account_id(s: Seq<char>) -> bool {
    &&& 2 <= s.len() <= 64
    &&& forall|i: int| 0 <= i < s.len() ==> valid_account_char(s[i])
    &&& forall|i: int|
        0 <= i < s.len() && account_char_is_separator(#[trigger] s[i]) ==> i > 0
            && !account_char_is_separator(s[i - 1])
    &&& !account_char_is_separator(s[s.len() - 1])
}

/// Relies on `near_sdk::AccountId::validate`: it accepts exactly the
/// identifiers of 2 to 64 characters drawn from `a-z`, `0-9`, `-`, `_`
/// and `.`, where no separator begins or ends the identifier or follows
/// another separator.  (Its length bounds count bytes, not characters;
/// the two coincide whenever every character is from that set, and both
/// readings reject any identifier holding a character outside it.)
#[verifier::external_body]
pub fn account_id_is_valid(s: &str) -> (r: bool)
    ensures
        r == valid_account_id(s@),
{
    near_sdk::AccountId::validate(s).is_ok()
}

} // verus!
