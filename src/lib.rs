//! Userspace driver core for USB graphics tablets: packet decoding,
//! per-device button tracking, event dispatch and device-pool decisions.

pub mod bits;
pub mod cli_options;
pub mod config;
pub mod decoder;
pub mod device_id;
pub mod device_info;
pub mod device_pool;
pub mod device_state;
pub mod event_handler;
pub mod interfaces;
pub mod platform;

pub use bits::SelectBit;
pub use cli_options::{CliError, CliOptions, Command};
pub use config::{classify_answer, plan_config_load, Config, ConfigLoad, PromptAnswer};
pub use decoder::{decode, DecodedFrame, PenButtons};
pub use device_id::{DeviceID, DeviceIdError};
pub use device_info::{DeviceDB, DeviceInfo};
pub use device_pool::{find_descriptor, new_global_state, plan_scan, GlobalState, ScanEntry};
pub use device_state::{new_device_state, DeviceStateInner};
pub use event_handler::{dispatch, DispatchStep};
pub use interfaces::{Button, ButtonState, Fraction, PartialUpdate, PenStatus, WheelDirection};
pub use platform::{axis_events, AxisEvent, ClickInput, InputAction, InputKey, KeyEvent};
