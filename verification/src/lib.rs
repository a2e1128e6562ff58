//! IPv4 subnet calculator: parse a CIDR string `A.B.C.D/P`, validate it, and
//! derive the subnet mask, network and broadcast addresses, the usable host
//! count, and the first and last usable host addresses.

pub mod parse;
pub mod render;
pub mod subnet;

pub use parse::subnet_calculator;
pub use render::format_ipv4;
pub use subnet::CidrError;
pub use subnet::CidrInput;
pub use subnet::SubnetReport;
