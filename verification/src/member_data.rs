//! Member count snapshots and join/leave events of a guild.
use vstd::prelude::*;

verus! {

#[derive(Clone, Copy)]
pub struct MemberActivity {
    pub activity_timestamp: i64,
    pub guild_id: i64,
    pub join_activity: bool,
}

#[derive(Clone, Copy)]
pub struct MemberCount {
    pub count_timestamp: i64,
    pub guild_id: i64,
    pub total_members: i64,
}

} // verus!
