//! Timezone-aware recurring maintenance windows and environment configuration.
pub mod calendar;
pub mod configuration;
pub mod schedule;
pub mod window;

pub use configuration::{
    config_id, decode_configuration, has_governed_evidence, remove_window, revision, set_window,
};
pub use schedule::{evaluate, Eligibility};
pub use window::{weekday_values, Window};
