//! Verified core of an option-pricing and technical-indicator toolkit.
pub mod indicator;
pub mod pricing;
