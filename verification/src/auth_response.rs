//! Replies of the password-authenticated protocol: the server answers with a
//! status and one result.
use vstd::prelude::*;
use crate::guild_channel::GuildWithChannels;

verus! {

pub enum ResultData {
    Guilds(Vec<GuildWithChannels>),
    AuthenticationSuccess,
    Error(ErrorType),
}

pub enum Status {
    Success { current_page: u64 },
    Error,
}

impl Status {
    pub fn success(current_page: u64) -> (r: Status)
        ensures
            r == (Status::Success { current_page }),
    {
        Status::Success { current_page }
    }

    pub fn error() -> (r: Status)
        ensures
            r == Status::Error,
    {
        Status::Error
    }
}

pub enum ErrorType {
    AuthenticationFailed(String),
    ClientNotAuthenticated,
    UnknowError(String),
}

pub struct WsResponse {
    pub status: Status,
    pub result: ResultData,
}

impl WsResponse {
    pub fn error_unknown(message: String) -> (r: WsResponse)
        ensures
            r.status == Status::Error,
            r.result == ResultData::Error(ErrorType::UnknowError(message)),
    {
        WsResponse { status: Status::error(), result: ResultData::Error(ErrorType::UnknowError(message)) }
    }

    pub fn guilds(guild_data: Vec<GuildWithChannels>) -> (r: WsResponse)
        ensures
            r.status == (Status::Success { current_page: 0 }),
            r.result == ResultData::Guilds(guild_data),
    {
        WsResponse { status: Status::Success { current_page: 0 }, result: ResultData::Guilds(guild_data) }
    }

    pub fn authentication_success() -> (r: WsResponse)
        ensures
            r.status == (Status::Success { current_page: 0 }),
            r.result == ResultData::AuthenticationSuccess,
    {
        WsResponse { status: Status::Success { current_page: 0 }, result: ResultData::AuthenticationSuccess }
    }

    pub fn authentication_failed(message: String) -> (r: WsResponse)
        ensures
            r.status == Status::Error,
            r.result == ResultData::Error(ErrorType::AuthenticationFailed(message)),
    {
        WsResponse {
            status: Status::error(),
            result: ResultData::Error(ErrorType::AuthenticationFailed(message)),
        }
    }

    pub fn not_authenticated() -> (r: WsResponse)
        ensures
            r.status == Status::Error,
            r.result == ResultData::Error(ErrorType::ClientNotAuthenticated),
    {
        WsResponse { status: Status::error(), result: ResultData::Error(ErrorType::ClientNotAuthenticated) }
    }
}

} // verus!
