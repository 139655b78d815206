//! Replies the server sends over the websocket.
use vstd::prelude::*;
use crate::guild_channel::GuildWithChannels;
use crate::member_data::{MemberActivity, MemberCount};
use crate::message_user::MessageWithUser;
use crate::user_details::UserDetails;

verus! {

/// Number of items in a full page of paged data.
pub const PAGE_VALUE: u64 = 5000;

pub enum Response {
    UserDetails(UserDetails),
    SessionID(String),
    Guilds(Vec<GuildWithChannels>),
    ConnectionSuccess(u64),
    Messages { guild_id: i64, messages: Vec<MessageWithUser> },
    MemberCounts { guild_id: i64, counts: Vec<MemberCount> },
    MemberActivities { guild_id: i64, activities: Vec<MemberActivity> },
    LoggedOut,
    Error(ErrorType),
}

pub enum Status {
    Success { current_page: u64 },
    Error,
}

impl Status {
    pub fn success(current_page: u64) -> (r: Status)
        ensures
            r == (Status::Success { current_page }),
    {
        Status::Success { current_page }
    }

    pub fn error() -> (r: Status)
        ensures
            r == Status::Error,
    {
        Status::Error
    }

    pub fn is_error(&self) -> (r: bool)
        ensures
            r == (*self is Error),
    {
        match self {
            Status::Error => true,
            _ => false,
        }
    }

    /// The page of a successful reply; only successful replies carry one.
    pub fn page(&self) -> (r: u64)
        requires
            *self is Success,
        ensures
            r == self->current_page,
    {
        match self {
            Status::Success { current_page } => *current_page,
            Status::Error => 0,
        }
    }
}

pub enum ErrorType {
    ClientNotConnected,
    FailedAuthentication,
    NoValidGuild,
    FailedSaveSession(String),
    FailedLogOut(String),
    InvalidSession,
    UnknowError(String),
}

impl ErrorType {
    /// A deep copy.
    pub fn duplicate(&self) -> (r: ErrorType)
        ensures
            r == *self,
    {
        match self {
            ErrorType::ClientNotConnected => ErrorType::ClientNotConnected,
            ErrorType::FailedAuthentication => ErrorType::FailedAuthentication,
            ErrorType::NoValidGuild => ErrorType::NoValidGuild,
            ErrorType::FailedSaveSession(s) => ErrorType::FailedSaveSession(s.clone()),
            ErrorType::FailedLogOut(s) => ErrorType::FailedLogOut(s.clone()),
            ErrorType::InvalidSession => ErrorType::InvalidSession,
            ErrorType::UnknowError(s) => ErrorType::UnknowError(s.clone()),
        }
    }
}

pub struct WsResponse {
    pub status: Status,
    pub response: Response,
}

impl WsResponse {
    pub fn error_unknown(message: String) -> (r: WsResponse)
        ensures
            r.status == Status::Error,
            r.response == Response::Error(ErrorType::UnknowError(message)),
    {
        WsResponse { status: Status::error(), response: Response::Error(ErrorType::UnknowError(message)) }
    }

    pub fn guilds(guild_data: Vec<GuildWithChannels>) -> (r: WsResponse)
        ensures
            r.status == (Status::Success { current_page: 0 }),
            r.response == Response::Guilds(guild_data),
    {
        WsResponse { status: Status::success(0), response: Response::Guilds(guild_data) }
    }

    pub fn connection_success(conn_id: u64) -> (r: WsResponse)
        ensures
            r.status == (Status::Success { current_page: 0 }),
            r.response == Response::ConnectionSuccess(conn_id),
    {
        WsResponse { status: Status::success(0), response: Response::ConnectionSuccess(conn_id) }
    }

    pub fn not_connected() -> (r: WsResponse)
        ensures
            r.status == Status::Error,
            r.response == Response::Error(ErrorType::ClientNotConnected),
    {
        WsResponse { status: Status::error(), response: Response::Error(ErrorType::ClientNotConnected) }
    }

    pub fn failed_authentication() -> (r: WsResponse)
        ensures
            r.status == Status::Error,
            r.response == Response::Error(ErrorType::FailedAuthentication),
    {
        WsResponse {
            status: Status::error(),
            response: Response::Error(ErrorType::FailedAuthentication),
        }
    }

    pub fn no_valid_guild() -> (r: WsResponse)
        ensures
            r.status == Status::Error,
            r.response == Response::Error(ErrorType::NoValidGuild),
    {
        WsResponse { status: Status::error(), response: Response::Error(ErrorType::NoValidGuild) }
    }

    pub fn messages(guild_id: i64, messages: Vec<MessageWithUser>, page: u64) -> (r: WsResponse)
        ensures
            r.status == (Status::Success { current_page: page }),
            r.response == (Response::Messages { guild_id, messages }),
    {
        WsResponse { status: Status::success(page), response: Response::Messages { guild_id, messages } }
    }

    pub fn member_counts(guild_id: i64, counts: Vec<MemberCount>, page: u64) -> (r: WsResponse)
        ensures
            r.status == (Status::Success { current_page: page }),
            r.response == (Response::MemberCounts { guild_id, counts }),
    {
        WsResponse { status: Status::success(page), response: Response::MemberCounts { guild_id, counts } }
    }

    pub fn member_activities(guild_id: i64, activities: Vec<MemberActivity>, page: u64) -> (r: WsResponse)
        ensures
            r.status == (Status::Success { current_page: page }),
            r.response == (Response::MemberActivities { guild_id, activities }),
    {
        WsResponse {
            status: Status::success(page),
            response: Response::MemberActivities { guild_id, activities },
        }
    }

    pub fn user_details(user_details: UserDetails) -> (r: WsResponse)
        ensures
            r.status == (Status::Success { current_page: 1 }),
            r.response == Response::UserDetails(user_details),
    {
        WsResponse { status: Status::success(1), response: Response::UserDetails(user_details) }
    }

    pub fn session(id: String) -> (r: WsResponse)
        ensures
            r.status == (Status::Success { current_page: 0 }),
            r.response == Response::SessionID(id),
    {
        WsResponse { status: Status::success(0), response: Response::SessionID(id) }
    }

    pub fn failed_session_save(reason: String) -> (r: WsResponse)
        ensures
            r.status == Status::Error,
            r.response == Response::Error(ErrorType::FailedSaveSession(reason)),
    {
        WsResponse {
            status: Status::error(),
            response: Response::Error(ErrorType::FailedSaveSession(reason)),
        }
    }

    pub fn failed_log_out(reason: String) -> (r: WsResponse)
        ensures
            r.status == Status::Error,
            r.response == Response::Error(ErrorType::FailedLogOut(reason)),
    {
        WsResponse { status: Status::error(), response: Response::Error(ErrorType::FailedLogOut(reason)) }
    }

    pub fn logged_out() -> (r: WsResponse)
        ensures
            r.status == (Status::Success { current_page: 0 }),
            r.response == Response::LoggedOut,
    {
        WsResponse { status: Status::success(0), response: Response::LoggedOut }
    }

    pub fn invalid_session() -> (r: WsResponse)
        ensures
            r.status == Status::Error,
            r.response == Response::Error(ErrorType::InvalidSession),
    {
        WsResponse { status: Status::error(), response: Response::Error(ErrorType::InvalidSession) }
    }

    /// The error an error reply carries; only error replies carry one.
    pub fn get_error(&self) -> (r: ErrorType)
        requires
            self.response is Error,
        ensures
            r == self.response->Error_0,
    {
        match &self.response {
            Response::Error(e) => e.duplicate(),
            _ => ErrorType::InvalidSession,
        }
    }
}

} // verus!
