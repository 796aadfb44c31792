//! The credentials that the server accepts.

use vstd::prelude::*;

verus! {

/// The password of each known user.
pub open spec fn user_to_password() -> Map<Seq<char>, Seq<char>> {
    map!["ian"@ => "ian"@, "dan"@ => "dan"@, "chris"@ => "chris"@]
}

fn same_text(a: &str, b: &str) -> (r: bool)
    ensures
        r == (a@ == b@),
{
    a.to_owned() == b.to_owned()
}

/// Whether `username` is a known user and `password` is that user's password.
pub fn are_credentials_correct(username: &str, password: &str) -> (r: bool)
    ensures
        r == (user_to_password().contains_key(username@) && user_to_password()[username@]
            == password@),
{
    proof {
        reveal_strlit("ian");
        reveal_strlit("dan");
        reveal_strlit("chris");
    }
    if same_text(username, "ian") {
        same_text(password, "ian")
    } else if same_text(username, "dan") {
        same_text(password, "dan")
    } else if same_text(username, "chris") {
        same_text(password, "chris")
    } else {
        false
    }
}

} // verus!
