//! Remote pin control core: a pin-role allocator, a shared pin state store,
//! the per-cycle decisions of the peripheral polling tasks, the wireless
//! session state machine and the network request handlers.
//!
//! Everything here is plain computation over values; the hardware drivers,
//! the wireless host stack and the HTTP server live with the application.

pub mod allocator;
pub mod application;
pub mod bridge;
pub mod drivers;
pub mod roles;
pub mod session;
pub mod store;
pub mod telemetry;

pub use roles::{pin_supports_role, PinRole};
pub use store::{PinSlot, PinStateStore, SlotWriter, writer_owns_role};
pub use allocator::{allocate, Allocation, PinConfig};
pub use drivers::{input_state, output_level, pwm_duty, LEVEL_HIGH, LEVEL_LOW};
pub use telemetry::{
    analog_snapshot, digital_snapshot, u32_to_u8_pair, MAX_ANALOG_TELEMETRY_PINS,
    MAX_DIGITAL_TELEMETRY_PINS, PAYLOAD_LEN,
};
pub use bridge::{
    apply_pin_writes, read_pins_handler, write_pins_handler, CommandError, PinReadItem,
    PinReadRequest, PinReadResponse, PinRequest, PinWriteItem, PinWriteResponse, MAX_PIN_WRITES,
};
pub use session::{Session, SessionAction, SessionEvent, SessionState};
pub use application::Application;
