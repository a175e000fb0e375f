//! The ticket-grabbing library: the project data, the rules that complete
//! and check it, the reading of what the user types as a project, and the
//! decisions of the home page.

pub mod model;
pub mod ticket_input;
pub mod sale_time;
pub mod validation;
pub mod ticket;
pub mod decimal;
pub mod home;
