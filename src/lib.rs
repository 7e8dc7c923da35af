//! A single shared record, stored durably and streamed live to every
//! connected subscriber.

pub mod cell;
pub mod event;
pub mod hub;
pub mod record;
