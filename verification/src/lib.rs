//! An open transmit path for the Wi-Fi MAC of the ESP32-C6.
//!
//! The MAC is driven through its registers and through the scheduler structures that the vendor
//! firmware keeps in memory. While the modem sleeps, the MAC clock is gated and the TX-block bits keep
//! an armed frame from launching, so a frame has to go the whole way: submit, modem wake, enqueue,
//! schedule, arm, complete. Every step of it is a function on `mmio::Mem`, the image of the address
//! space, and its contract says which stores it makes, in which order, and what it returns.
//!
//! Registers and structures: `mmio`, `mac_reg`, `layout`, `rates`. Slot programming: `slot`,
//! `hal_mac_tx`, `interpose`. The pipeline: `eb_pool`, `frame`, `pending`, `pm_wake`, `pipeline`,
//! `tx_loop`. Around it: `config`, `beacon`, `diag`. What the steps leave in registers and memory, and
//! what holds across functions, is stated in `mem_laws`, `layout_laws`, `slot_laws`, `hal_laws`,
//! `ppdu_laws`, `pool_laws`, `frame_laws`, `wake_laws`, `step_laws`, `pipeline_laws`, `arm_laws`,
//! `submit_laws`, `queue_laws` and `transmit_laws`.
pub mod arm_laws;
pub mod beacon;
pub mod bits;
pub mod config;
pub mod diag;
pub mod eb_pool;
pub mod frame;
pub mod frame_laws;
pub mod hal_laws;
pub mod hal_mac_tx;
pub mod interpose;
pub mod layout;
pub mod layout_laws;
pub mod mac_reg;
pub mod mem_laws;
pub mod mmio;
pub mod pending;
pub mod pipeline;
pub mod pipeline_laws;
pub mod pm_wake;
pub mod pool_laws;
pub mod ppdu_laws;
pub mod queue_laws;
pub mod rates;
pub mod slot;
pub mod slot_laws;
pub mod step_laws;
pub mod submit_laws;
pub mod transmit_laws;
pub mod tx_loop;
pub mod wake_laws;
