use vstd::prelude::*;

verus! {

/// Frames the broker sends to a player client.
#[derive(Copy, Clone, Debug, PartialEq, Eq, Hash, Structural)]
pub enum ServerToClientPackets {
    OnlineCheck,
    AlertMsg,
    FltAlert,
    ServerList,
    Login,
}

impl ServerToClientPackets {
    /// The ordinal that stands for this frame on the wire.
    pub open spec fn spec_wire_tag(self) -> u8 {
        match self {
            ServerToClientPackets::OnlineCheck => 0,
            ServerToClientPackets::AlertMsg => 1,
            ServerToClientPackets::FltAlert => 2,
            ServerToClientPackets::ServerList => 3,
            ServerToClientPackets::Login => 4,
        }
    }

    #[verifier::when_used_as_spec(spec_wire_tag)]
    pub fn wire_tag(self) -> (r: u8)
        ensures
            r == self.spec_wire_tag(),
    {
        match self {
            ServerToClientPackets::OnlineCheck => 0,
            ServerToClientPackets::AlertMsg => 1,
            ServerToClientPackets::FltAlert => 2,
            ServerToClientPackets::ServerList => 3,
            ServerToClientPackets::Login => 4,
        }
    }
}

/// Frames the broker sends to a game server.
#[derive(Copy, Clone, Debug, PartialEq, Eq, Hash, Structural)]
pub enum ServerToServerPackets {
    OnlineCheck,
    Verification,
    KillClient,
}

impl ServerToServerPackets {
    /// The ordinal that stands for this frame on the wire.
    pub open spec fn spec_wire_tag(self) -> u8 {
        match self {
            ServerToServerPackets::OnlineCheck => 0,
            ServerToServerPackets::Verification => 1,
            ServerToServerPackets::KillClient => 2,
        }
    }

    #[verifier::when_used_as_spec(spec_wire_tag)]
    pub fn wire_tag(self) -> (r: u8)
        ensures
            r == self.spec_wire_tag(),
    {
        match self {
            ServerToServerPackets::OnlineCheck => 0,
            ServerToServerPackets::Verification => 1,
            ServerToServerPackets::KillClient => 2,
        }
    }
}

/// Frames a player client sends to the broker.
#[derive(Copy, Clone, Debug, PartialEq, Eq, Hash, Structural)]
pub enum ClientPacket {
    OnlineCheck,
    Register,
    Login,
    PasswordReset,
    RequestServers,
}

impl ClientPacket {
    /// The frame kind that a wire ordinal stands for, if any.
    pub open spec fn spec_from_wire_tag(tag: u8) -> Option<ClientPacket> {
        if tag == 0 {
            Some(ClientPacket::OnlineCheck)
        } else if tag == 1 {
            Some(ClientPacket::Register)
        } else if tag == 2 {
            Some(ClientPacket::Login)
        } else if tag == 3 {
            Some(ClientPacket::PasswordReset)
        } else if tag == 4 {
            Some(ClientPacket::RequestServers)
        } else {
            None
        }
    }

    #[verifier::when_used_as_spec(spec_from_wire_tag)]
    pub fn from_wire_tag(tag: u8) -> (r: Option<ClientPacket>)
        ensures
            r == Self::spec_from_wire_tag(tag),
    {
        if tag == 0 {
            Some(ClientPacket::OnlineCheck)
        } else if tag == 1 {
            Some(ClientPacket::Register)
        } else if tag == 2 {
            Some(ClientPacket::Login)
        } else if tag == 3 {
            Some(ClientPacket::PasswordReset)
        } else if tag == 4 {
            Some(ClientPacket::RequestServers)
        } else {
            None
        }
    }
}

/// Frames a game server sends to the broker.
#[derive(Copy, Clone, Debug, PartialEq, Eq, Hash, Structural)]
pub enum GameServerPacket {
    OnlineCheck,
    Verification,
    UpdateInfo,
    UpdateCount,
}

impl GameServerPacket {
    /// The frame kind that a wire ordinal stands for, if any.
    pub open spec fn spec_from_wire_tag(tag: u8) -> Option<GameServerPacket> {
        if tag == 0 {
            Some(GameServerPacket::OnlineCheck)
        } else if tag == 1 {
            Some(GameServerPacket::Verification)
        } else if tag == 2 {
            Some(GameServerPacket::UpdateInfo)
        } else if tag == 3 {
            Some(GameServerPacket::UpdateCount)
        } else {
            None
        }
    }

    #[verifier::when_used_as_spec(spec_from_wire_tag)]
    pub fn from_wire_tag(tag: u8) -> (r: Option<GameServerPacket>)
        ensures
            r == Self::spec_from_wire_tag(tag),
    {
        if tag == 0 {
            Some(GameServerPacket::OnlineCheck)
        } else if tag == 1 {
            Some(GameServerPacket::Verification)
        } else if tag == 2 {
            Some(GameServerPacket::UpdateInfo)
        } else if tag == 3 {
            Some(GameServerPacket::UpdateCount)
        } else {
            None
        }
    }
}

} // verus!
