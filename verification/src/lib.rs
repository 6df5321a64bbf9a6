//! Verified core of the ticketing site: Stripe checkout and webhook handling,
//! LinkedIn conversion reporting, and the site's error and sale-window rules.

pub mod clock;
pub mod crypto;
pub mod linkedin;
pub mod stripe;
pub mod site;
pub mod text;
