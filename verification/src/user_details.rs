//! The Discord account the client is logged in with.
use vstd::prelude::*;
use crate::text::{replace_char, replaced, same_text};

verus! {

pub struct UserDetails {
    pub id: String,
    pub username: String,
    pub discriminator: String,
    pub avatar: Option<String>,
}

impl Default for UserDetails {
    fn default() -> (r: UserDetails)
        ensures
            r.id@ == "0"@,
            r.username@ == "User"@,
            r.discriminator@ == "0"@,
            r.avatar is None,
    {
        UserDetails {
            id: String::from_str("0"),
            username: String::from_str("User"),
            discriminator: String::from_str("0"),
            avatar: None,
        }
    }
}

/// Where avatars of accounts with an uploaded picture are served.
pub open spec fn avatar_base() -> Seq<char> {
    "https://cdn.discordapp.com/avatars/"@
}

/// The generated initials picture for a name (spaces encoded as `%20`).
pub open spec fn initials_base() -> Seq<char> {
    "https://api.dicebear.com/9.x/initials/png?seed="@
}

/// The generated initials picture link for `name`.
pub open spec fn initials_link(name: Seq<char>) -> Seq<char> {
    initials_base() + replaced(name, ' ', "%20"@)
}

/// Builds the generated initials picture link for `name`.
pub fn initials_link_of(name: &str) -> (r: String)
    ensures
        r@ == initials_link(name@),
{
    let mut link = String::from_str("https://api.dicebear.com/9.x/initials/png?seed=");
    let encoded = replace_char(name, ' ', "%20");
    link.append(encoded.as_str());
    link
}

impl UserDetails {
    /// `username#discriminator`, or the bare username when the discriminator is "0".
    pub open spec fn spec_full_username(&self) -> Seq<char> {
        if self.discriminator@ != "0"@ {
            self.username@ + "#"@ + self.discriminator@
        } else {
            self.username@
        }
    }

    pub fn full_username(&self) -> (r: String)
        ensures
            r@ == self.spec_full_username(),
    {
        if !same_text(self.discriminator.as_str(), "0") {
            let mut name = self.username.clone();
            name.append("#");
            name.append(self.discriminator.as_str());
            name
        } else {
            self.username.clone()
        }
    }

    pub open spec fn spec_avatar_link(&self) -> Seq<char> {
        match self.avatar {
            Some(hash) => avatar_base() + self.id@ + "/"@ + hash@,
            None => initials_link(self.username@),
        }
    }

    pub fn avatar_link(&self) -> (r: String)
        ensures
            r@ == self.spec_avatar_link(),
    {
        match &self.avatar {
            Some(hash) => {
                let mut link = String::from_str("https://cdn.discordapp.com/avatars/");
                link.append(self.id.as_str());
                link.append("/");
                link.append(hash.as_str());
                link
            },
            None => initials_link_of(self.username.as_str()),
        }
    }
}

} // verus!
