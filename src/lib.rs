pub mod batch;
pub mod fetch;
pub mod key;
pub mod mint;
