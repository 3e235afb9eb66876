//! The window: what it knows, what it asks for, and what it shows.

pub mod controller;
pub mod icon;
pub mod presentation;
pub mod view_model;
