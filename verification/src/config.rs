use crate::error::ErrorCode;
use vstd::prelude::*;

verus! {

/// Process-wide protocol configuration: the authority allowed to change
/// it, the recipient of protocol fees, and the protocol fee rate in
/// basis points. Created once, then updated in place by the authority.
#[derive(Clone, Copy, Debug, PartialEq, Eq, Structural)]
pub struct Config {
    pub authority: u64,
    pub protocol_fee_recipient: u64,
    pub protocol_fee_bp: u16,
}

impl Config {
    /// The protocol fee can never exceed the whole amount it is
    /// charged on.
    pub open spec fn wf(self) -> bool {
        self.protocol_fee_bp <= 10000
    }
}

/// Creates the configuration record, binding it to its creating
/// authority and rejecting a protocol fee rate above 100%.
pub fn initialize(authority: u64, protocol_fee_recipient: u64, protocol_fee_bp: u16) -> (r: Result<
    Config,
    ErrorCode,
>)
    ensures
        protocol_fee_bp > 10000 ==> r == Err::<Config, ErrorCode>(ErrorCode::InvalidAmount),
        protocol_fee_bp <= 10000 ==> r == Ok::<Config, ErrorCode>(
            (Config { authority, protocol_fee_recipient, protocol_fee_bp }),
        ),
        r matches Ok(c) ==> c.wf(),
{
    if protocol_fee_bp > 10000 {
        return Err(ErrorCode::InvalidAmount);
    }
    Ok(Config { authority, protocol_fee_recipient, protocol_fee_bp })
}

/// Updates the fields the caller supplies, leaving the others alone.
///
/// Only the recorded authority may mutate the configuration, the
/// authority itself never changes, and a fee rate above 100% is
/// rejected. On any failure the configuration is left untouched.
pub fn update_config(
    config: &mut Config,
    caller: u64,
    protocol_fee_recipient: Option<u64>,
    protocol_fee_bp: Option<u16>,
) -> (r: Result<(), ErrorCode>)
    ensures
        caller != old(config).authority ==> r == Err::<(), ErrorCode>(ErrorCode::InvalidAuthority)
            && *final(config) == *old(config),
        caller == old(config).authority && (protocol_fee_bp matches Some(bp) && bp > 10000) ==> r
            == Err::<(), ErrorCode>(ErrorCode::InvalidAmount) && *final(config) == *old(config),
        caller == old(config).authority && (protocol_fee_bp matches Some(bp) ==> bp <= 10000)
            ==> {
            &&& r == Ok::<(), ErrorCode>(())
            &&& final(config).authority == old(config).authority
            &&& final(config).protocol_fee_recipient == (match protocol_fee_recipient {
                Some(recipient) => recipient,
                None => old(config).protocol_fee_recipient,
            })
            &&& final(config).protocol_fee_bp == (match protocol_fee_bp {
                Some(bp) => bp,
                None => old(config).protocol_fee_bp,
            })
        },
        old(config).wf() ==> final(config).wf(),
{
    if caller != config.authority {
        return Err(ErrorCode::InvalidAuthority);
    }
    if let Some(bp) = protocol_fee_bp {
        if bp > 10000 {
            return Err(ErrorCode::InvalidAmount);
        }
        config.protocol_fee_bp = bp;
    }
    if let Some(recipient) = protocol_fee_recipient {
        config.protocol_fee_recipient = recipient;
    }
    Ok(())
}

} // verus!
