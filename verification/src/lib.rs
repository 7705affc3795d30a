use vstd::prelude::*;

mod addr;
mod counter;
mod errors;
mod respond;
mod scan;
mod shutdown;
mod telemetry;
mod transport;

pub use addr::AddrFamily;
pub use addr::BindTarget;
pub use addr::DEFAULT_PORT;
pub use addr::find_dc;
pub use addr::has_bracket_colon;
pub use addr::IpAddress;
pub use addr::ipv6_from_groups;
pub use addr::lemma_malformed_never_resolves;
pub use addr::lemma_resolve_appends_default_port;
pub use addr::lemma_resolve_keeps_embedded_port;
pub use addr::parse_addr;
pub use addr::parse_groups_ne;
pub use addr::parse_hex_group;
pub use addr::parse_ip;
pub use addr::parse_ip_address;
pub use addr::parse_ipv4_range;
pub use addr::parse_ipv6_range;
pub use addr::parse_octet;
pub use addr::parse_port_num;
pub use addr::parse_socket;
pub use addr::parse_socket_address;
pub use addr::resolve_addr;
pub use addr::resolve_binds;
pub use addr::resolve_spec;
pub use addr::v4_groups;
pub use addr::zero_groups;
pub use counter::RequestCounter;
pub use errors::CertificateLoadError;
pub use errors::ConfigError;
pub use errors::error;
pub use errors::KeyLoadError;
pub use errors::ServiceError;
pub use respond::best_run_from;
pub use respond::dec_chars;
pub use respond::digit_char;
pub use respond::dotted_chars;
pub use respond::format_ip;
pub use respond::groups_text;
pub use respond::handle_connection;
pub use respond::hex_chars;
pub use respond::ip_chars;
pub use respond::is_v4_mapped;
pub use respond::response_chars;
pub use respond::run_len;
pub use respond::v6_group_seq;
pub use scan::all_radix;
pub use scan::char_val;
pub use scan::count_char;
pub use scan::find_char;
pub use scan::is_digit;
pub use scan::is_radix_digit;
pub use scan::num_value;
pub use scan::parse_num_spec;
pub use shutdown::after_confirmations;
pub use shutdown::ExitType;
pub use shutdown::lemma_shutdown_drains_all;
pub use shutdown::Phase;
pub use shutdown::ShutdownCoordinator;
pub use telemetry::TelemetrySample;
pub use telemetry::TelemetryState;
pub use transport::Certificate;
pub use transport::lemma_single_key_rule;
pub use transport::load_certs;
pub use transport::load_certs_spec;
pub use transport::load_key_spec;
pub use transport::load_private_key;
pub use transport::pem_certs_of;
pub use transport::pem_ec_keys_of;
pub use transport::pem_pkcs8_keys_of;
pub use transport::pem_rsa_keys_of;
pub use transport::PrivateKey;
pub use transport::select_key_spec;
pub use transport::TransportContext;

verus! {

} // verus!
