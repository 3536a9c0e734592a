pub mod utils;
pub mod rfc_791;
pub mod rfc_793;
pub mod interface_state;
pub mod network_interface;
