//! Starting a connection: the server address to dial and a fresh client id.

use vstd::prelude::*;
use crate::main_menu::ServerAddress;
use crate::text::{decimal_chars, push_decimal};

verus! {

/// What the app needs to open a connection.
#[derive(Debug)]
pub struct ConnectionRequest {
    /// The server address as `ip:port`.
    pub address_text: String,
    /// The id this client presents to the server.
    pub client_id: u64,
}

/// A random `u64` from `rand::random`, drawn from the thread-local generator.
/// Nothing is promised of the value: any `u64` may come back. The call panics
/// only when the operating system's random source fails, which no argument
/// decides.
#[verifier::external_body]
fn random_u64() -> u64 {
    rand::random::<u64>()
}

/// The text `ip:port`.
pub open spec fn address_text_spec(ip: Seq<char>, port: u16) -> Seq<char> {
    ip + ":"@ + decimal_chars(port as nat)
}

/// Prepares a connection to `address`: the address to dial as `ip:port`,
/// and a random client id.
pub fn start_connection(address: &ServerAddress) -> (r: ConnectionRequest)
    ensures
        r.address_text@ == address_text_spec(address.ip@, address.port),
{
    let mut text = address.ip.clone();
    text.append(":");
    push_decimal(&mut text, address.port as u64);
    let client_id = random_u64();
    ConnectionRequest { address_text: text, client_id }
}

} // verus!
