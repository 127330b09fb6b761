//! The rewards contract's IBC channels: which channels it accepts, and
//! what opening and closing one does to its configuration.
use vstd::prelude::*;

verus! {

/// The kinds of channel the hatching protocol opens.
#[derive(Clone, Copy, Debug, PartialEq, Eq, Structural)]
pub enum IbcChannelVersion {
    NftMint,
    LvnGrant,
}

/// Why a channel was refused.
#[derive(Clone, Copy, Debug, PartialEq, Eq, Structural)]
pub enum ChannelError {
    /// The counterparty speaks another version than the channel's.
    VersionMismatch { counterparty: IbcChannelVersion, version: IbcChannelVersion },
    /// The channel is ordered; only unordered channels are accepted.
    NotUnordered,
    /// The rewards contract has no use for this kind of channel.
    UnknownChannel(IbcChannelVersion),
}

/// Checks a channel being opened or connected: the counterparty's version,
/// when given, must be the channel's own, and the channel must be
/// unordered; the channel's version is returned.
pub fn validate_channel(
    version: IbcChannelVersion,
    counterparty_version: Option<IbcChannelVersion>,
    unordered: bool,
) -> (r: Result<IbcChannelVersion, ChannelError>)
    ensures
        r == (match counterparty_version {
            Some(c) if c != version => Err(ChannelError::VersionMismatch { counterparty: c, version }),
            _ => if unordered {
                Ok(version)
            } else {
                Err(ChannelError::NotUnordered)
            },
        }),
{
    if let Some(c) = counterparty_version {
        if c != version {
            return Err(ChannelError::VersionMismatch { counterparty: c, version });
        }
    }
    if !unordered {
        return Err(ChannelError::NotUnordered);
    }
    Ok(version)
}

/// The channel the rewards contract records once a channel connects: an
/// LVN grant channel is recorded (replacing any other); another kind is
/// refused.
pub fn connected_grant_channel(version: IbcChannelVersion, channel_id: String) -> (r: Result<String, ChannelError>)
    ensures
        version == IbcChannelVersion::LvnGrant ==> r == Ok::<String, ChannelError>(channel_id),
        version != IbcChannelVersion::LvnGrant ==> r == Err::<String, ChannelError>(ChannelError::UnknownChannel(version)),
{
    match version {
        IbcChannelVersion::LvnGrant => Ok(channel_id),
        _ => Err(ChannelError::UnknownChannel(version)),
    }
}

/// The LVN grant channel recorded after a channel closes: closing the
/// grant channel forgets it; closing a channel of another known kind is
/// refused; closing one of no known kind (`None`) changes nothing.
pub fn closed_grant_channel(version: Option<IbcChannelVersion>, recorded: Option<String>) -> (r: Result<
    Option<String>,
    ChannelError,
>)
    ensures
        r == (match version {
            None => Ok(recorded),
            Some(IbcChannelVersion::LvnGrant) => Ok(None),
            Some(v) => Err(ChannelError::UnknownChannel(v)),
        }),
{
    match version {
        None => Ok(recorded),
        Some(IbcChannelVersion::LvnGrant) => Ok(None),
        Some(v) => Err(ChannelError::UnknownChannel(v)),
    }
}

} // verus!
