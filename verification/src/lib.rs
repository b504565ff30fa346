//! Hardware abstraction layer for Acer Nitro laptops, verified with Verus.
//!
//! Every decision the layer makes (which sysfs attribute exists, what it
//! holds, which value may be written where) is taken over a [`sysfs::SysFs`]
//! snapshot of the files it reads, and every write it wants is returned as a
//! [`plan::Plan`] for the caller to carry out. Nothing here touches the
//! filesystem itself.

pub mod acer;
pub mod battery;
pub mod cli;
pub mod config;
pub mod control;
pub mod daemon;
pub mod dmi;
pub mod ec;
pub mod error;
pub mod input;
pub mod leds;
pub mod panel;
pub mod pci;
pub mod evdev;
pub mod fan;
pub mod hwmon;
pub mod plan;
pub mod power;
pub mod probe;
pub mod profile;
pub mod render;
pub mod platform_profile;
pub mod rgb;
pub mod state;
pub mod sysfs;
pub mod text;
pub mod wmi;
pub mod telemetry;
