//! Builtin (precompiled) contract descriptors of a chain specification, and
//! the normalisation of their pricing schedules.
pub mod builtin;
pub mod height;
pub mod pricing;

pub use builtin::{Builtin, BuiltinCompat, BuiltinWarning, PricingCompat};
pub use height::{HeightError, Uint};
pub use pricing::{
    AltBn128ConstOperations, AltBn128Pairing, Linear, Modexp, Pricing, PricingAt,
};
