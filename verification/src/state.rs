//! Tabs, navigation steps, application events and status, table columns and chart kinds.
use vstd::prelude::*;

verus! {

/// The tab shown in the central panel.
#[derive(Clone, Copy, Debug, PartialEq, Eq, Structural)]
pub enum TabState {
    Overview,
    UserTable,
    ChannelTable,
    MessageChart,
    UserChart,
    CommonWords,
}

impl Default for TabState {
    fn default() -> (r: TabState)
        ensures
            r == TabState::Overview,
    {
        TabState::Overview
    }
}

impl TabState {
    pub fn last_value() -> (r: TabState)
        ensures
            r == TabState::CommonWords,
    {
        TabState::CommonWords
    }

    pub fn first_value() -> (r: TabState)
        ensures
            r == TabState::Overview,
    {
        TabState::default()
    }

    pub open spec fn spec_label(&self) -> Seq<char> {
        match self {
            TabState::Overview => "Overview"@,
            TabState::UserTable => "User Table"@,
            TabState::ChannelTable => "Channel Table"@,
            TabState::MessageChart => "Message Chart"@,
            TabState::UserChart => "User Chart"@,
            TabState::CommonWords => "Common Words"@,
        }
    }

    /// The name shown on the tab's menu label.
    pub fn label(&self) -> (r: &'static str)
        ensures
            r@ == self.spec_label(),
    {
        match self {
            TabState::Overview => "Overview",
            TabState::UserTable => "User Table",
            TabState::ChannelTable => "Channel Table",
            TabState::MessageChart => "Message Chart",
            TabState::UserChart => "User Chart",
            TabState::CommonWords => "Common Words",
        }
    }

    /// Every tab, in menu order.
    pub fn all() -> (r: Vec<TabState>)
        ensures
            r@ == seq![
                TabState::Overview,
                TabState::UserTable,
                TabState::ChannelTable,
                TabState::MessageChart,
                TabState::UserChart,
                TabState::CommonWords,
            ],
    {
        vec![
            TabState::Overview,
            TabState::UserTable,
            TabState::ChannelTable,
            TabState::MessageChart,
            TabState::UserChart,
            TabState::CommonWords,
        ]
    }
}

/// The step that the date navigator moves the selected range by.
#[derive(Clone, Copy, Debug, PartialEq, Eq, Structural)]
pub enum NavigationType {
    Day,
    Week,
    Month,
    Year,
}

impl Default for NavigationType {
    fn default() -> (r: NavigationType)
        ensures
            r == NavigationType::Day,
    {
        NavigationType::Day
    }
}

impl NavigationType {
    pub open spec fn spec_label(&self) -> Seq<char> {
        match self {
            NavigationType::Day => "Day"@,
            NavigationType::Week => "Week"@,
            NavigationType::Month => "Month"@,
            NavigationType::Year => "Year"@,
        }
    }

    pub fn label(&self) -> (r: &'static str)
        ensures
            r@ == self.spec_label(),
    {
        match self {
            NavigationType::Day => "Day",
            NavigationType::Week => "Week",
            NavigationType::Month => "Month",
            NavigationType::Year => "Year",
        }
    }

    pub fn all() -> (r: Vec<NavigationType>)
        ensures
            r@ == seq![
                NavigationType::Day,
                NavigationType::Week,
                NavigationType::Month,
                NavigationType::Year,
            ],
    {
        vec![NavigationType::Day, NavigationType::Week, NavigationType::Month, NavigationType::Year]
    }
}

/// Events raised by the interface and the network handling, processed in order.
/// Dates are days counted from 1970-01-01.
#[derive(Clone, Copy, Debug, PartialEq, Eq, Structural)]
pub enum AppEvent {
    DateChanged,
    CompareDate,
    StartWebsocket,
    UpdateDate(i32, i64),
    OverviewNeedsReload(i64),
    UserTableNeedsReload(i64),
    ChannelTableNeedsReload(i64),
    WordTableNeedsReload(i64),
    MessageChartNeedsReload(i64),
    UserChartNeedsReload(i64),
    CellsCopied,
    GuildChanged,
    StopCompareOverview,
    MessageChartTypeChanged(i64),
    UserChartTypeChanged(i64),
    SelectedChannelsChanged,
    LogOut,
}

/// What the bottom bar reports.
pub enum AppStatus {
    Idle,
    ConnectingToWs,
    FailedWs(String),
    Fetching,
    CellsCopied,
    LoggingIn,
    NoValidGuild,
    FailedAuth,
    UnexpectedError(String),
    LoggedOut,
    AttemptLogOut,
    FailedLogOut(String),
}

impl Default for AppStatus {
    fn default() -> (r: AppStatus)
        ensures
            r == AppStatus::Idle,
    {
        AppStatus::Idle
    }
}

impl AppStatus {
    /// Whether the status describes work in progress.
    pub open spec fn spec_show_spinner(&self) -> bool {
        match self {
            AppStatus::ConnectingToWs | AppStatus::Fetching | AppStatus::LoggingIn
            | AppStatus::AttemptLogOut => true,
            _ => false,
        }
    }

    pub fn show_spinner(&self) -> (r: bool)
        ensures
            r == self.spec_show_spinner(),
    {
        match self {
            AppStatus::ConnectingToWs | AppStatus::Fetching | AppStatus::LoggingIn
            | AppStatus::AttemptLogOut => true,
            AppStatus::Idle
            | AppStatus::FailedWs(_)
            | AppStatus::CellsCopied
            | AppStatus::NoValidGuild
            | AppStatus::FailedAuth
            | AppStatus::UnexpectedError(_)
            | AppStatus::LoggedOut
            | AppStatus::FailedLogOut(_) => false,
        }
    }

    pub open spec fn spec_text(&self) -> Seq<char> {
        match self {
            AppStatus::Idle => "Idle"@,
            AppStatus::ConnectingToWs => "Connecting to the server"@,
            AppStatus::FailedWs(r) => "Failed to connect to the websocket server. Reason: "@ + r@,
            AppStatus::Fetching => "Fetching data from the server"@,
            AppStatus::CellsCopied => "Copied selected cells to clipboard"@,
            AppStatus::LoggingIn => "Waiting to login to discord.."@,
            AppStatus::NoValidGuild =>
                "This account is not in any guild with data or with manage channel permission"@,
            AppStatus::FailedAuth => "Failed to authenticate Discord. Please try again"@,
            AppStatus::UnexpectedError(r) => "Unexpected error found. Reason: "@ + r@,
            AppStatus::LoggedOut => "Logged out of Discord"@,
            AppStatus::AttemptLogOut => "Attempting to log out of Discord"@,
            AppStatus::FailedLogOut(r) => "Faiiled to log out of Discord. Reason: "@ + r@,
        }
    }

    /// The text shown for the status.
    pub fn text(&self) -> (r: String)
        ensures
            r@ == self.spec_text(),
    {
        match self {
            AppStatus::Idle => String::from_str("Idle"),
            AppStatus::ConnectingToWs => String::from_str("Connecting to the server"),
            AppStatus::FailedWs(r) => {
                let mut s = String::from_str("Failed to connect to the websocket server. Reason: ");
                s.append(r.as_str());
                s
            },
            AppStatus::Fetching => String::from_str("Fetching data from the server"),
            AppStatus::CellsCopied => String::from_str("Copied selected cells to clipboard"),
            AppStatus::LoggingIn => String::from_str("Waiting to login to discord.."),
            AppStatus::NoValidGuild => String::from_str(
                "This account is not in any guild with data or with manage channel permission",
            ),
            AppStatus::FailedAuth => String::from_str("Failed to authenticate Discord. Please try again"),
            AppStatus::UnexpectedError(r) => {
                let mut s = String::from_str("Unexpected error found. Reason: ");
                s.append(r.as_str());
                s
            },
            AppStatus::LoggedOut => String::from_str("Logged out of Discord"),
            AppStatus::AttemptLogOut => String::from_str("Attempting to log out of Discord"),
            AppStatus::FailedLogOut(r) => {
                let mut s = String::from_str("Faiiled to log out of Discord. Reason: ");
                s.append(r.as_str());
                s
            },
        }
    }
}

/// Columns of the user table.
#[derive(Clone, Copy, Debug, PartialEq, Eq, Structural)]
pub enum UserColumn {
    Name,
    Username,
    UserID,
    TotalMessage,
    DeletedMessage,
    TotalWord,
    TotalChar,
    AverageWord,
    AverageChar,
    FirstMessageSeen,
    LastMessageSeen,
    UniqueChannels,
}

impl UserColumn {
    pub open spec fn spec_label(&self) -> Seq<char> {
        match self {
            UserColumn::Name => "Name"@,
            UserColumn::Username => "Username"@,
            UserColumn::UserID => "User ID"@,
            UserColumn::TotalMessage => "Total Message"@,
            UserColumn::DeletedMessage => "Deleted Message"@,
            UserColumn::TotalWord => "Total Word"@,
            UserColumn::TotalChar => "Total Char"@,
            UserColumn::AverageWord => "Average Word"@,
            UserColumn::AverageChar => "Average Char"@,
            UserColumn::FirstMessageSeen => "First Message Seen"@,
            UserColumn::LastMessageSeen => "Last Message Seen"@,
            UserColumn::UniqueChannels => "Unique Channels"@,
        }
    }

    pub fn label(&self) -> (r: &'static str)
        ensures
            r@ == self.spec_label(),
    {
        match self {
            UserColumn::Name => "Name",
            UserColumn::Username => "Username",
            UserColumn::UserID => "User ID",
            UserColumn::TotalMessage => "Total Message",
            UserColumn::DeletedMessage => "Deleted Message",
            UserColumn::TotalWord => "Total Word",
            UserColumn::TotalChar => "Total Char",
            UserColumn::AverageWord => "Average Word",
            UserColumn::AverageChar => "Average Char",
            UserColumn::FirstMessageSeen => "First Message Seen",
            UserColumn::LastMessageSeen => "Last Message Seen",
            UserColumn::UniqueChannels => "Unique Channels",
        }
    }
}

/// Columns of the channel table.
#[derive(Clone, Copy, Debug, PartialEq, Eq, Structural)]
pub enum ChannelColumn {
    Name,
    ID,
    TotalMessage,
    DeletedMessage,
    FirstMessage,
    LastMessage,
    UniqueUsers,
}

impl ChannelColumn {
    pub open spec fn spec_label(&self) -> Seq<char> {
        match self {
            ChannelColumn::Name => "Name"@,
            ChannelColumn::ID => "Channel ID"@,
            ChannelColumn::TotalMessage => "Total Message"@,
            ChannelColumn::DeletedMessage => "Deleted Message"@,
            ChannelColumn::FirstMessage => "First Message Seen"@,
            ChannelColumn::LastMessage => "Last Message Time"@,
            ChannelColumn::UniqueUsers => "Unique Users"@,
        }
    }

    pub fn label(&self) -> (r: &'static str)
        ensures
            r@ == self.spec_label(),
    {
        match self {
            ChannelColumn::Name => "Name",
            ChannelColumn::ID => "Channel ID",
            ChannelColumn::TotalMessage => "Total Message",
            ChannelColumn::DeletedMessage => "Deleted Message",
            ChannelColumn::FirstMessage => "First Message Seen",
            ChannelColumn::LastMessage => "Last Message Time",
            ChannelColumn::UniqueUsers => "Unique Users",
        }
    }
}

/// Columns of the common words table.
#[derive(Clone, Copy, Debug, PartialEq, Eq, Structural)]
pub enum WordColumn {
    Phrase,
    Hits,
}

impl WordColumn {
    pub open spec fn spec_label(&self) -> Seq<char> {
        match self {
            WordColumn::Phrase => "Phrase"@,
            WordColumn::Hits => "Hits"@,
        }
    }

    pub fn label(&self) -> (r: &'static str)
        ensures
            r@ == self.spec_label(),
    {
        match self {
            WordColumn::Phrase => "Phrase",
            WordColumn::Hits => "Hits",
        }
    }
}

/// The bucket size of a time chart.
#[derive(Clone, Copy, Debug, PartialEq, Eq, Structural)]
pub enum ChartType {
    Hourly,
    Daily,
    Weekly,
    Monthly,
}

impl Default for ChartType {
    fn default() -> (r: ChartType)
        ensures
            r == ChartType::Daily,
    {
        ChartType::Daily
    }
}

impl ChartType {
    pub open spec fn spec_label(&self) -> Seq<char> {
        match self {
            ChartType::Hourly => "Hourly"@,
            ChartType::Daily => "Daily"@,
            ChartType::Weekly => "Weekly"@,
            ChartType::Monthly => "Monthly"@,
        }
    }

    pub fn label(&self) -> (r: &'static str)
        ensures
            r@ == self.spec_label(),
    {
        match self {
            ChartType::Hourly => "Hourly",
            ChartType::Daily => "Daily",
            ChartType::Weekly => "Weekly",
            ChartType::Monthly => "Monthly",
        }
    }

    pub fn all() -> (r: Vec<ChartType>)
        ensures
            r@ == seq![ChartType::Hourly, ChartType::Daily, ChartType::Weekly, ChartType::Monthly],
    {
        vec![ChartType::Hourly, ChartType::Daily, ChartType::Weekly, ChartType::Monthly]
    }
}

} // verus!
