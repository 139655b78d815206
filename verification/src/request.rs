//! Requests the client sends to the server.
use vstd::prelude::*;

verus! {

pub enum Request {
    StartConnection,
    StartConnectionNoLogin,
    GetGuildNoLogin,
    Session { id: String },
    LogOut,
    GetMessages { guild_id: i64, page: u64 },
    GetGuildMemberCount { guild_id: i64, page: u64 },
    GetGuildMemberActivity { guild_id: i64, page: u64 },
}

impl Request {
    pub fn start() -> (r: Request)
        ensures
            r == Request::StartConnection,
    {
        Request::StartConnection
    }

    pub fn start_no_login() -> (r: Request)
        ensures
            r == Request::StartConnectionNoLogin,
    {
        Request::StartConnectionNoLogin
    }

    pub fn guild_no_login() -> (r: Request)
        ensures
            r == Request::GetGuildNoLogin,
    {
        Request::GetGuildNoLogin
    }

    pub fn session(id: String) -> (r: Request)
        ensures
            r == (Request::Session { id }),
    {
        Request::Session { id }
    }

    pub fn get_messages(guild_id: i64, page: u64) -> (r: Request)
        ensures
            r == (Request::GetMessages { guild_id, page }),
    {
        Request::GetMessages { guild_id, page }
    }

    pub fn get_member_counts(guild_id: i64, page: u64) -> (r: Request)
        ensures
            r == (Request::GetGuildMemberCount { guild_id, page }),
    {
        Request::GetGuildMemberCount { guild_id, page }
    }

    pub fn get_member_activity(guild_id: i64, page: u64) -> (r: Request)
        ensures
            r == (Request::GetGuildMemberActivity { guild_id, page }),
    {
        Request::GetGuildMemberActivity { guild_id, page }
    }
}

} // verus!
