//! Watches the availability of products: remembers each product's last known
//! state, detects when it changes, and decides the steps of the polling loop
//! that queries, notifies and waits.
pub mod config;
pub mod notice;
pub mod poller;
pub mod tracker;
