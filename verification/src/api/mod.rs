pub mod handlers;
pub mod websocket;
