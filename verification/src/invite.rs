//! The link that invites the bot to a server.

use crate::text::{decimal_text, push_decimal};
use vstd::prelude::*;
use vstd::string::StringExecFns;

verus! {

/// The link for the application `bot_id` with the permissions whose bits
/// are `permissions`.
pub open spec fn invite_link(bot_id: u64, permissions: u64) -> Seq<char> {
    "https://discord.com/api/oauth2/authorize?client_id="@ + decimal_text(bot_id as nat)
        + "&permissions="@ + decimal_text(permissions as nat)
        + "&scope=bot%20applications.commands"@
}

/// Writes the invite link; see [`invite_link`].
pub fn invite_url(bot_id: u64, permissions: u64) -> (url: String)
    ensures
        url@ == invite_link(bot_id, permissions),
{
    let mut url = String::from_str("https://discord.com/api/oauth2/authorize?client_id=");
    push_decimal(&mut url, bot_id);
    url.append("&permissions=");
    push_decimal(&mut url, permissions);
    url.append("&scope=bot%20applications.commands");
    url
}

} // verus!
