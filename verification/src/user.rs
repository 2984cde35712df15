//! The account a purchase belongs to: an address and a timezone offset.

use vstd::prelude::*;

verus! {

/// A registered user, keyed by email address.
pub struct User {
    user_email: String,
    tz_offset: i32,
}

/// Spec-level image of a [`User`].
pub ghost struct UserModel {
    pub user_email: Seq<char>,
    pub tz_offset: int,
}

impl View for User {
    type V = UserModel;

    closed spec fn view(&self) -> UserModel {
        UserModel { user_email: self.user_email@, tz_offset: self.tz_offset as int }
    }
}

impl User {
    /// Creates a new user.
    pub fn new(email: &str, tz_offset: i32) -> (r: User)
        ensures
            r@ == (UserModel { user_email: email@, tz_offset: tz_offset as int }),
    {
        User { user_email: String::from_str(email), tz_offset }
    }

    /// The user's email address.
    pub fn get_email(&self) -> (r: &str)
        ensures
            r@ == self@.user_email,
    {
        self.user_email.as_str()
    }

    /// The user's timezone offset from UTC, in seconds.
    pub fn get_tz_offset(&self) -> (r: i32)
        ensures
            r as int == self@.tz_offset,
    {
        self.tz_offset
    }
}

} // verus!
