//! What the menu bar item decides: how often it polls the sampler and what
//! it shows, the dropdown panel's state, where the dashboard is launched
//! from, the login-item row, and what it says about updates.
pub mod child;
pub mod controller;
pub mod login_item;
pub mod panel;
pub mod update_ui;
