//! A LAN inventory: the rules of an ARP-sweep scanner, its vendor table, its
//! device store and its web views, each stated and proved.

pub mod arp;
pub mod config;
pub mod db;
pub mod laws;
pub mod models;
pub mod net;
pub mod oui;
pub mod paths;
pub mod scanner;
pub mod scheduler;
pub mod text;
pub mod time;
pub mod web;
