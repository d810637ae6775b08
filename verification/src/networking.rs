//! Network channels between server and clients and their settings.

use vstd::prelude::*;

verus! {

/// Identifies this game's protocol on the wire.
pub const PROTOCOL_ID: u64 = 42;

/// The channels the server sends on.
#[derive(Copy, Clone, PartialEq, Eq, Debug, Structural)]
pub enum ServerChannel {
    GameEvent,
    GameFrame,
    ChunkTransfer,
}

/// The kinds of block components a client can ask for.
#[derive(Copy, Clone, PartialEq, Eq, Debug, Structural)]
pub enum FunctorType {
    InternalInventory,
}

/// The channels clients send on.
#[derive(Copy, Clone, PartialEq, Eq, Debug, Structural)]
pub enum ClientChannel {
    ClientCommand,
}

/// The settings of one channel, with every field the game sets; the others
/// keep the transport's defaults.
#[derive(Copy, Clone, PartialEq, Eq, Debug, Structural)]
pub enum ChannelConfig {
    /// Ordered, resent until acknowledged; resent at once when `message_resend_time_zero`.
    Reliable { channel_id: u8, message_resend_time_zero: bool },
    /// Fire and forget, with queues of the given sizes.
    Unreliable { channel_id: u8, message_send_queue_size: usize, message_receive_queue_size: usize },
    /// Large messages sent in slices.
    Block { channel_id: u8, max_message_size: u64, message_send_queue_size: usize },
}

impl ServerChannel {
    /// The channel's number: 0, 1 and 2 in declaration order.
    pub open spec fn spec_id(&self) -> u8 {
        match self {
            ServerChannel::GameEvent => 0,
            ServerChannel::GameFrame => 1,
            ServerChannel::ChunkTransfer => 2,
        }
    }

    /// The channel's number.
    pub fn id(&self) -> (r: u8)
        ensures
            r == self.spec_id(),
    {
        match self {
            ServerChannel::GameEvent => 0,
            ServerChannel::GameFrame => 1,
            ServerChannel::ChunkTransfer => 2,
        }
    }

    /// The server's channels: game events reliable and resent at once, game
    /// frames unreliable with queues of 2048, chunk transfers in blocks of at
    /// most 16 MiB with a send queue of 2048.
    pub fn channels_config() -> (r: Vec<ChannelConfig>)
        ensures
            r@ == seq![
                ChannelConfig::Reliable { channel_id: 0, message_resend_time_zero: true },
                ChannelConfig::Unreliable {
                    channel_id: 1,
                    message_send_queue_size: 2048,
                    message_receive_queue_size: 2048,
                },
                ChannelConfig::Block {
                    channel_id: 2,
                    max_message_size: 16777216,
                    message_send_queue_size: 2048,
                },
            ],
    {
        let mut r: Vec<ChannelConfig> = Vec::new();
        r.push(
            ChannelConfig::Reliable {
                channel_id: ServerChannel::GameEvent.id(),
                message_resend_time_zero: true,
            },
        );
        r.push(
            ChannelConfig::Unreliable {
                channel_id: ServerChannel::GameFrame.id(),
                message_send_queue_size: 2048,
                message_receive_queue_size: 2048,
            },
        );
        r.push(
            ChannelConfig::Block {
                channel_id: ServerChannel::ChunkTransfer.id(),
                max_message_size: 1024 * 1024 * 16,
                message_send_queue_size: 2048,
            },
        );
        assert(r@ =~= seq![
            ChannelConfig::Reliable { channel_id: 0, message_resend_time_zero: true },
            ChannelConfig::Unreliable {
                channel_id: 1,
                message_send_queue_size: 2048,
                message_receive_queue_size: 2048,
            },
            ChannelConfig::Block {
                channel_id: 2,
                max_message_size: 16777216,
                message_send_queue_size: 2048,
            },
        ]);
        r
    }
}

impl ClientChannel {
    /// The channel's number.
    pub open spec fn spec_id(&self) -> u8 {
        0
    }

    /// The channel's number.
    pub fn id(&self) -> (r: u8)
        ensures
            r == self.spec_id(),
    {
        match self {
            ClientChannel::ClientCommand => 0,
        }
    }

    /// The client's channels: commands, reliable and resent at once.
    pub fn channels_config() -> (r: Vec<ChannelConfig>)
        ensures
            r@ == seq![ChannelConfig::Reliable { channel_id: 0, message_resend_time_zero: true }],
    {
        let mut r: Vec<ChannelConfig> = Vec::new();
        r.push(
            ChannelConfig::Reliable {
                channel_id: ClientChannel::ClientCommand.id(),
                message_resend_time_zero: true,
            },
        );
        assert(r@ =~= seq![ChannelConfig::Reliable { channel_id: 0, message_resend_time_zero: true }]);
        r
    }
}

/// The channels of one end of a connection: what it sends on and what it
/// receives on.
pub struct ConnectionConfig {
    pub send_channels_config: Vec<ChannelConfig>,
    pub receive_channels_config: Vec<ChannelConfig>,
}

/// The server sends on the server channels and receives on the client channels.
pub fn server_connection_config() -> (r: ConnectionConfig)
    ensures
        r.send_channels_config@ == ServerChannel::channels_config_spec(),
        r.receive_channels_config@ == ClientChannel::channels_config_spec(),
{
    ConnectionConfig {
        send_channels_config: ServerChannel::channels_config(),
        receive_channels_config: ClientChannel::channels_config(),
    }
}

/// The client sends on the client channels and receives on the server channels.
pub fn client_connection_config() -> (r: ConnectionConfig)
    ensures
        r.send_channels_config@ == ClientChannel::channels_config_spec(),
        r.receive_channels_config@ == ServerChannel::channels_config_spec(),
{
    ConnectionConfig {
        send_channels_config: ClientChannel::channels_config(),
        receive_channels_config: ServerChannel::channels_config(),
    }
}

impl ServerChannel {
    /// The server's channel settings.
    pub open spec fn channels_config_spec() -> Seq<ChannelConfig> {
        seq![
            ChannelConfig::Reliable { channel_id: 0, message_resend_time_zero: true },
            ChannelConfig::Unreliable {
                channel_id: 1,
                message_send_queue_size: 2048,
                message_receive_queue_size: 2048,
            },
            ChannelConfig::Block {
                channel_id: 2,
                max_message_size: 16777216,
                message_send_queue_size: 2048,
            },
        ]
    }
}

impl ClientChannel {
    /// The client's channel settings.
    pub open spec fn channels_config_spec() -> Seq<ChannelConfig> {
        seq![ChannelConfig::Reliable { channel_id: 0, message_resend_time_zero: true }]
    }
}

} // verus!
