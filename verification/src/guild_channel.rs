//! Guilds and their channels as sent by the server.
use vstd::prelude::*;

verus! {

pub struct Guild {
    pub guild_id: i64,
    pub guild_name: String,
    pub guild_icon: Option<String>,
}

pub struct Channel {
    pub channel_id: i64,
    pub guild_id: i64,
    pub channel_name: String,
}

/// A guild together with the channels the client may see.
pub struct GuildWithChannels {
    pub guild: Guild,
    pub channels: Vec<Channel>,
}

impl Guild {
    /// A field-by-field copy.
    pub fn duplicate(&self) -> (r: Guild)
        ensures
            r == *self,
    {
        let icon = match &self.guild_icon {
            Some(s) => Some(s.clone()),
            None => None,
        };
        Guild { guild_id: self.guild_id, guild_name: self.guild_name.clone(), guild_icon: icon }
    }
}

impl Channel {
    /// A field-by-field copy.
    pub fn duplicate(&self) -> (r: Channel)
        ensures
            r == *self,
    {
        Channel {
            channel_id: self.channel_id,
            guild_id: self.guild_id,
            channel_name: self.channel_name.clone(),
        }
    }
}

/// Copies a list of channels, element by element.
pub fn copy_channels(channels: &Vec<Channel>) -> (r: Vec<Channel>)
    ensures
        r@ == channels@,
{
    let mut out: Vec<Channel> = Vec::new();
    let mut i: usize = 0;
    while i < channels.len()
        invariant
            i <= channels.len(),
            out@ == channels@.subrange(0, i as int),
        decreases channels.len() - i,
    {
        out.push(channels[i].duplicate());
        i = i + 1;
    }
    assert(out@ == channels@);
    out
}

impl GuildWithChannels {
    pub fn new(guild: Guild, channels: Vec<Channel>) -> (r: GuildWithChannels)
        ensures
            r.guild == guild,
            r.channels == channels,
    {
        GuildWithChannels { guild, channels }
    }

    /// A deep copy.
    pub fn duplicate(&self) -> (r: GuildWithChannels)
        ensures
            r.guild == self.guild,
            r.channels@ == self.channels@,
    {
        GuildWithChannels { guild: self.guild.duplicate(), channels: copy_channels(&self.channels) }
    }
}

} // verus!
