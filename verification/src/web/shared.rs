//! Messages exchanged between the web clients and their servers.

use std::collections::HashMap;
use vstd::prelude::*;

verus! {

/// A message sent over a websocket by an htmx page, with the request
/// headers it carried.
#[derive(Debug)]
pub struct IncomingWebsocketMessage {
    pub message: String,
    pub headers: HashMap<String, Option<String>>,
}

/// A request to log in.
#[derive(Debug, Clone)]
pub struct LoginRequest {
    pub username: String,
    pub password: String,
}

/// The answer to a successful login.
#[derive(Debug, Clone)]
pub struct LoginResponse {
    pub username: String,
}

/// A message from a client to the server.
#[derive(Debug, Clone)]
pub enum WebSocketClientToServerMessage {
    Placeholder(String),
}

/// A message from the server to a client.
#[derive(Debug, Clone)]
pub enum WebSocketServerToClientMessage {
    Placeholder(String),
}

/// An example record shared by client and server.
#[derive(Debug)]
pub struct Example {
    pub foo: String,
    pub bar: i32,
}

} // verus!
