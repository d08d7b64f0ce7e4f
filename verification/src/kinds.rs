//! The small enumerations of the wire protocol and their one-byte codes.

use vstd::prelude::*;

verus! {

/// Stable identifier for a connected player.
pub type PlayerId = u64;

/// Everything that can make a packet unreadable.
#[derive(Debug, Clone, Copy, PartialEq, Eq, Structural)]
pub enum DecodeError {
    TooShort,
    InvalidMagic,
    UnsupportedVersion(u8),
    UnknownMessageType(u8),
    InvalidPayloadLength,
    InvalidPayload,
}

/// A structure that a player can place in the world.
#[derive(Debug, Clone, Copy, PartialEq, Eq, Structural)]
pub enum BuildingKind {
    Wall,
    Floor,
    Storage,
    Campfire,
}

/// A gatherable resource, also the kind of an inventory stack.
#[derive(Debug, Clone, Copy, PartialEq, Eq, Structural)]
pub enum ResourceKind {
    Wood,
    Stone,
    Berries,
}

/// Something the player can craft.
#[derive(Debug, Clone, Copy, PartialEq, Eq, Structural)]
pub enum CraftRecipe {
    CampKit,
}

/// The kind of a packet, carried in the fourth byte of the envelope.
#[derive(Debug, Clone, Copy, PartialEq, Eq, Structural)]
pub enum MessageType {
    ClientInput,
    ServerSnapshot,
    ClientAuthenticate,
    ClientInteract,
    ClientCraft,
    ClientConsume,
    ClientAttack,
    ClientBuild,
}

impl BuildingKind {
    /// The byte that stands for this kind on the wire.
    pub open spec fn spec_code(self) -> u8 {
        match self {
            BuildingKind::Wall => 1,
            BuildingKind::Floor => 2,
            BuildingKind::Storage => 3,
            BuildingKind::Campfire => 4,
        }
    }

    /// The kind that a byte stands for, if any.
    pub open spec fn spec_from_code(value: u8) -> Option<BuildingKind> {
        if value == 1 {
            Some(BuildingKind::Wall)
        } else if value == 2 {
            Some(BuildingKind::Floor)
        } else if value == 3 {
            Some(BuildingKind::Storage)
        } else if value == 4 {
            Some(BuildingKind::Campfire)
        } else {
            None
        }
    }

    pub fn code(self) -> (r: u8)
        ensures
            r == self.spec_code(),
    {
        match self {
            BuildingKind::Wall => 1,
            BuildingKind::Floor => 2,
            BuildingKind::Storage => 3,
            BuildingKind::Campfire => 4,
        }
    }

    pub fn try_from(value: u8) -> (r: Result<BuildingKind, DecodeError>)
        ensures
            r == match Self::spec_from_code(value) {
                Some(k) => Ok(k),
                None => Err(DecodeError::InvalidPayload),
            },
    {
        match value {
            1 => Ok(BuildingKind::Wall),
            2 => Ok(BuildingKind::Floor),
            3 => Ok(BuildingKind::Storage),
            4 => Ok(BuildingKind::Campfire),
            _ => Err(DecodeError::InvalidPayload),
        }
    }

    /// Reading back the code of a kind gives the kind.
    pub proof fn lemma_code_round_trip(self)
        ensures
            Self::spec_from_code(self.spec_code()) == Some(self),
    {
    }
}

impl ResourceKind {
    pub open spec fn spec_code(self) -> u8 {
        match self {
            ResourceKind::Wood => 1,
            ResourceKind::Stone => 2,
            ResourceKind::Berries => 3,
        }
    }

    pub open spec fn spec_from_code(value: u8) -> Option<ResourceKind> {
        if value == 1 {
            Some(ResourceKind::Wood)
        } else if value == 2 {
            Some(ResourceKind::Stone)
        } else if value == 3 {
            Some(ResourceKind::Berries)
        } else {
            None
        }
    }

    pub fn code(self) -> (r: u8)
        ensures
            r == self.spec_code(),
    {
        match self {
            ResourceKind::Wood => 1,
            ResourceKind::Stone => 2,
            ResourceKind::Berries => 3,
        }
    }

    pub fn try_from(value: u8) -> (r: Result<ResourceKind, DecodeError>)
        ensures
            r == match Self::spec_from_code(value) {
                Some(k) => Ok(k),
                None => Err(DecodeError::InvalidPayload),
            },
    {
        match value {
            1 => Ok(ResourceKind::Wood),
            2 => Ok(ResourceKind::Stone),
            3 => Ok(ResourceKind::Berries),
            _ => Err(DecodeError::InvalidPayload),
        }
    }

    /// Reading back the code of a kind gives the kind.
    pub proof fn lemma_code_round_trip(self)
        ensures
            Self::spec_from_code(self.spec_code()) == Some(self),
    {
    }
}

impl CraftRecipe {
    pub open spec fn spec_code(self) -> u8 {
        match self {
            CraftRecipe::CampKit => 1,
        }
    }

    pub open spec fn spec_from_code(value: u8) -> Option<CraftRecipe> {
        if value == 1 {
            Some(CraftRecipe::CampKit)
        } else {
            None
        }
    }

    pub fn code(self) -> (r: u8)
        ensures
            r == self.spec_code(),
    {
        match self {
            CraftRecipe::CampKit => 1,
        }
    }

    pub fn try_from(value: u8) -> (r: Result<CraftRecipe, DecodeError>)
        ensures
            r == match Self::spec_from_code(value) {
                Some(k) => Ok(k),
                None => Err(DecodeError::InvalidPayload),
            },
    {
        match value {
            1 => Ok(CraftRecipe::CampKit),
            _ => Err(DecodeError::InvalidPayload),
        }
    }

    /// Reading back the code of a recipe gives the recipe.
    pub proof fn lemma_code_round_trip(self)
        ensures
            Self::spec_from_code(self.spec_code()) == Some(self),
    {
    }
}

impl MessageType {
    pub open spec fn spec_code(self) -> u8 {
        match self {
            MessageType::ClientInput => 1,
            MessageType::ServerSnapshot => 2,
            MessageType::ClientAuthenticate => 3,
            MessageType::ClientInteract => 4,
            MessageType::ClientCraft => 5,
            MessageType::ClientConsume => 6,
            MessageType::ClientAttack => 7,
            MessageType::ClientBuild => 8,
        }
    }

    pub open spec fn spec_from_code(value: u8) -> Option<MessageType> {
        if value == 1 {
            Some(MessageType::ClientInput)
        } else if value == 2 {
            Some(MessageType::ServerSnapshot)
        } else if value == 3 {
            Some(MessageType::ClientAuthenticate)
        } else if value == 4 {
            Some(MessageType::ClientInteract)
        } else if value == 5 {
            Some(MessageType::ClientCraft)
        } else if value == 6 {
            Some(MessageType::ClientConsume)
        } else if value == 7 {
            Some(MessageType::ClientAttack)
        } else if value == 8 {
            Some(MessageType::ClientBuild)
        } else {
            None
        }
    }

    pub fn code(self) -> (r: u8)
        ensures
            r == self.spec_code(),
    {
        match self {
            MessageType::ClientInput => 1,
            MessageType::ServerSnapshot => 2,
            MessageType::ClientAuthenticate => 3,
            MessageType::ClientInteract => 4,
            MessageType::ClientCraft => 5,
            MessageType::ClientConsume => 6,
            MessageType::ClientAttack => 7,
            MessageType::ClientBuild => 8,
        }
    }

    /// An unknown byte is reported back inside the error.
    pub fn try_from(value: u8) -> (r: Result<MessageType, DecodeError>)
        ensures
            r == match Self::spec_from_code(value) {
                Some(t) => Ok(t),
                None => Err(DecodeError::UnknownMessageType(value)),
            },
    {
        match value {
            1 => Ok(MessageType::ClientInput),
            2 => Ok(MessageType::ServerSnapshot),
            3 => Ok(MessageType::ClientAuthenticate),
            4 => Ok(MessageType::ClientInteract),
            5 => Ok(MessageType::ClientCraft),
            6 => Ok(MessageType::ClientConsume),
            7 => Ok(MessageType::ClientAttack),
            8 => Ok(MessageType::ClientBuild),
            _ => Err(DecodeError::UnknownMessageType(value)),
        }
    }

    /// Reading back the code of a message type gives the type.
    pub proof fn lemma_code_round_trip(self)
        ensures
            Self::spec_from_code(self.spec_code()) == Some(self),
    {
    }
}

} // verus!
