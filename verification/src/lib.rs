//! Structured parsing of kernel/syslog-style log lines.
//!
//! A raw `dmesg`-style line is classified against one of two structural
//! templates (wall-clock ISO timestamps or boot-relative seconds) and turned
//! into a typed record of severity, timestamp and message. A second stage
//! recognizes firewall/packet-filter message bodies and extracts the
//! structured network fields from their `KEY=value` token stream.

pub mod iptables;
pub mod kernel;
pub mod laws;
pub mod scan;
pub mod timestamp;
pub mod utils;

pub use iptables::IptablesLineError;
pub use iptables::IptablesLogLine;
pub use iptables::Ipv4Address;
pub use kernel::KernelLine;
pub use kernel::KernelLineError;
pub use kernel::KernelLogLevel;
pub use kernel::LineFormat;
pub use kernel::Timestamp;
pub use timestamp::CalendarTimestamp;
