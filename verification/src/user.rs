use vstd::prelude::*;

verus! {

/// The one entity of the service: a user, carried only for the duration of a
/// single request/response cycle. No identifier is stored on the value
/// itself; ids travel out-of-band as path parameters.
pub struct User {
    pub name: String,
    pub email: String,
}

/// The mathematical view of a `User`: its two text fields as character
/// sequences.
pub struct UserView {
    pub name: Seq<char>,
    pub email: Seq<char>,
}

impl View for User {
    type V = UserView;

    open spec fn view(&self) -> UserView {
        UserView { name: self.name@, email: self.email@ }
    }
}

/// The placeholder user that the read-by-id handler synthesizes for every id.
pub open spec fn spec_placeholder_user() -> UserView {
    UserView { name: "foo"@, email: "foo@bar.xyz"@ }
}

/// Builds the placeholder user value.
pub fn placeholder_user() -> (u: User)
    ensures
        u@ == spec_placeholder_user(),
{
    User { name: String::from_str("foo"), email: String::from_str("foo@bar.xyz") }
}

} // verus!
