//! The devices of the real-time core. What a driver writes to its registers is
//! computed here from what it read; the accesses themselves are the caller's.

pub mod amp_config;
pub mod ap_uart;
pub mod clint_k3;
pub mod clock;
pub mod dtb;
pub mod handshake;
pub mod mailbox;
pub mod pinctrl_k3;
pub mod plic_k3;
pub mod pxa_uart;
pub mod qemu;
pub mod reg;
pub mod soft_uart;
pub mod timer_k3;
pub mod uart;
