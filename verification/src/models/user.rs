//! The user record returned by the REST user endpoints.

use vstd::prelude::*;

verus! {

use crate::models::common::Snowflake;

/// Model of a [`User`].
pub struct UserModel {
    pub id: i64,
    pub user_name: Seq<char>,
    pub discriminator: Seq<char>,
    pub avatar: Option<Seq<char>>,
    pub bot: Option<bool>,
    pub system: Option<bool>,
    pub mfa_enabled: Option<bool>,
    pub locale: Option<Seq<char>>,
    pub verified: Option<bool>,
    pub email: Option<Seq<char>>,
    pub flags: Option<i32>,
    pub premium_type: Option<i32>,
    pub public_flags: Option<i32>,
}

/// A user resource. The core reads only the identifying fields; everything
/// else is carried through unchanged for callers.
#[derive(Debug, Clone)]
pub struct User {
    pub id: Snowflake,
    pub user_name: String,
    pub discriminator: String,
    pub avatar: Option<String>,
    pub bot: Option<bool>,
    pub system: Option<bool>,
    pub mfa_enabled: Option<bool>,
    pub locale: Option<String>,
    pub verified: Option<bool>,
    pub email: Option<String>,
    pub flags: Option<i32>,
    pub premium_type: Option<i32>,
    pub public_flags: Option<i32>,
}

impl View for User {
    type V = UserModel;

    open spec fn view(&self) -> UserModel {
        UserModel {
            id: self.id.value,
            user_name: self.user_name@,
            discriminator: self.discriminator@,
            avatar: match &self.avatar {
                Some(v) => Some(v@),
                None => None,
            },
            bot: self.bot,
            system: self.system,
            mfa_enabled: self.mfa_enabled,
            locale: match &self.locale {
                Some(v) => Some(v@),
                None => None,
            },
            verified: self.verified,
            email: match &self.email {
                Some(v) => Some(v@),
                None => None,
            },
            flags: self.flags,
            premium_type: self.premium_type,
            public_flags: self.public_flags,
        }
    }
}

} // verus!
