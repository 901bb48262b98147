//! Data carried by the web services: page views, database notifications,
//! websocket messages and user records.

pub mod db;
pub mod notifications;
pub mod shared;
pub mod users;
pub mod views;
