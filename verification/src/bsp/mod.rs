//! Board support: the data types that the Opal Kelly board cores exchange.

pub mod ok_xem6010;
pub mod ok_xem7010;
