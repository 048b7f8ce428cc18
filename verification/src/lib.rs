//! Invoicing core: invoice records and their lifecycle, SVG rendering of an
//! invoice, calendar dates from epoch timestamps, and canonical-profile slugs.

pub mod text;
pub mod calendar;
pub mod numbers;
pub mod string_map;
pub mod model;
pub mod money;
pub mod svg;
pub mod slug;
pub mod profile;
pub mod lifecycle;
pub mod keys;
pub mod clock;
pub mod payout;
