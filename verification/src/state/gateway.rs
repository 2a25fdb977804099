//! The gateway configuration: the one record that says which gateway may speak for
//! other chains.

use crate::codec::{append, take32};
use crate::pda::Address;
use vstd::prelude::*;

verus! {

/// The authorization record of the bridge.
#[derive(Clone, Copy, Debug, PartialEq, Eq)]
pub struct GatewayConfig {
    /// The identity of the authorized gateway.
    pub gateway: Address,
}

/// Type tag that opens the slot of a gateway configuration.
pub const GATEWAY_CONFIG_DISCRIMINATOR: [u8; 8] = [91, 247, 66, 27, 24, 1, 48, 176];

/// What the slot of a configuration with this gateway holds: the type tag, then the
/// gateway's identity.
pub open spec fn gateway_config_data(gateway: Seq<u8>) -> Seq<u8> {
    GATEWAY_CONFIG_DISCRIMINATOR@ + gateway
}

/// The gateway that a configuration slot names. The first 8 bytes are passed over
/// unread; the rest must be the gateway's identity and nothing more.
pub open spec fn parse_gateway_config(data: Seq<u8>) -> Option<Seq<u8>> {
    if data.len() == 8 + GatewayConfig::LEN {
        Some(data.subrange(8, 40))
    } else {
        None
    }
}

/// A configuration is read back from its slot as it was written.
pub proof fn lemma_gateway_config_round_trip(gateway: Seq<u8>)
    requires
        gateway.len() == 32,
    ensures
        parse_gateway_config(gateway_config_data(gateway)) == Some(gateway),
{
    assert(gateway_config_data(gateway).subrange(8, 40) =~= gateway);
}

impl GatewayConfig {
    /// Namespace tag of the configuration's address.
    pub const SEED: [u8; 14] = [103, 97, 116, 101, 119, 97, 121, 95, 99, 111, 110, 102, 105, 103];

    /// Size of the record, without its type tag.
    pub const LEN: usize = 32;

    /// Reads the configuration out of what its slot holds.
    pub fn load(data: &[u8]) -> (r: Option<GatewayConfig>)
        ensures
            match r {
                Some(config) => parse_gateway_config(data@) == Some(config.gateway@),
                None => parse_gateway_config(data@) is None,
            },
    {
        if data.len() != 40 {
            return None;
        }
        Some(GatewayConfig { gateway: take32(data, 8) })
    }

    /// What the slot of this configuration holds.
    pub fn to_account_data(&self) -> (r: Vec<u8>)
        ensures
            r@ == gateway_config_data(self.gateway@),
    {
        let mut out: Vec<u8> = Vec::new();
        append(&mut out, &GATEWAY_CONFIG_DISCRIMINATOR);
        append(&mut out, &self.gateway);
        assert(out@ =~= gateway_config_data(self.gateway@));
        out
    }
}

} // verus!
