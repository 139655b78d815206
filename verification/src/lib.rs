//! Data model, aggregation and protocol logic of the Funnel Discord analytics client.
#![allow(unused_imports)]

pub mod fetch_status;
pub mod guild_channel;
pub mod member_data;
pub mod message_user;
pub mod request;
pub mod text;
pub mod user_details;
pub mod response;
pub mod auth_response;
pub mod state;
pub mod calendar;
pub mod date_handler;
pub mod date_navigator;
pub mod event_bus;
pub mod series;
pub mod keyed;
pub mod overview_series;
pub mod overview;
pub mod aggregate;
pub mod named;
pub mod chart_buckets;
pub mod message_chart;
pub mod user_chart;
pub mod table_order;
pub mod channel_table;
pub mod user_table;
pub mod word_table;
pub mod tab_handler;
pub mod connection;
pub mod panels;
pub mod window;
pub mod changelog;
pub mod cards;
pub mod laws;
