use vstd::prelude::*;

verus! {

/// Errors related to [`SignType`]s.
#[derive(Debug, Clone, PartialEq, Eq)]
#[non_exhaustive]
pub enum SignTypeError {
    /// The configuration data was not 16 bytes long.
    WrongConfigLength { expected: u8, actual: usize },
    /// The configuration data matched no known sign type.
    UnknownConfig { bytes: Vec<u8> },
}

/// The known models of sign, each with its 16-byte configuration block.
///
/// The first configuration byte names the family (`0x04` for Max3000, `0x08` for Horizon)
/// and the second the model within it.
#[derive(Debug, Copy, Clone, PartialEq, Eq, Hash, Structural)]
#[non_exhaustive]
pub enum SignType {
    /// Max3000 flip-dot sign, front, 112 × 16 pixels
    Max3000Front112x16,
    /// Max3000 flip-dot sign, front, 98 × 16 pixels
    Max3000Front98x16,
    /// Max3000 flip-dot sign, side, 90 × 7 pixels
    Max3000Side90x7,
    /// Max3000 flip-dot sign, rear, 30 × 10 pixels
    Max3000Rear30x10,
    /// Max3000 flip-dot sign, rear, 23 × 10 pixels
    Max3000Rear23x10,
    /// Max3000 flip-dot sign, dash, 30 × 7 pixels
    Max3000Dash30x7,
    /// Horizon LED sign, front, 160 × 16 pixels
    HorizonFront160x16,
    /// Horizon LED sign, front, 140 × 16 pixels
    HorizonFront140x16,
    /// Horizon LED sign, side, 96 × 8 pixels
    HorizonSide96x8,
    /// Horizon LED sign, rear, 48 × 16 pixels
    HorizonRear48x16,
    /// Horizon LED sign, dash, 40 × 12 pixels
    HorizonDash40x12,
}

/// The 16-byte configuration block of a sign type.
pub open spec fn config_bytes(s: SignType) -> Seq<u8> {
    match s {
        SignType::Max3000Front112x16 => seq![0x04u8, 0x47u8, 0x00u8, 0x0Fu8, 0x10u8, 0x1Cu8, 0x1Cu8, 0x1Cu8, 0x1Cu8, 0x10u8, 0x00u8, 0x00u8, 0x00u8, 0x00u8, 0x00u8, 0x00u8],
        SignType::Max3000Front98x16 => seq![0x04u8, 0x4Du8, 0x00u8, 0x0Du8, 0x10u8, 0x0Eu8, 0x1Cu8, 0x1Cu8, 0x1Cu8, 0x10u8, 0x00u8, 0x00u8, 0x00u8, 0x00u8, 0x00u8, 0x00u8],
        SignType::Max3000Side90x7 => seq![0x04u8, 0x20u8, 0x00u8, 0x06u8, 0x07u8, 0x1Eu8, 0x1Eu8, 0x1Eu8, 0x00u8, 0x08u8, 0x00u8, 0x00u8, 0x00u8, 0x00u8, 0x00u8, 0x00u8],
        SignType::Max3000Rear30x10 => seq![0x04u8, 0x62u8, 0x00u8, 0x04u8, 0x0Au8, 0x1Eu8, 0x00u8, 0x00u8, 0x00u8, 0x10u8, 0x00u8, 0x00u8, 0x00u8, 0x00u8, 0x00u8, 0x00u8],
        SignType::Max3000Rear23x10 => seq![0x04u8, 0x61u8, 0x00u8, 0x04u8, 0x0Au8, 0x17u8, 0x00u8, 0x00u8, 0x00u8, 0x10u8, 0x00u8, 0x00u8, 0x00u8, 0x00u8, 0x00u8, 0x00u8],
        SignType::Max3000Dash30x7 => seq![0x04u8, 0x26u8, 0x00u8, 0x03u8, 0x07u8, 0x1Eu8, 0x00u8, 0x00u8, 0x00u8, 0x08u8, 0x00u8, 0x00u8, 0x00u8, 0x00u8, 0x00u8, 0x00u8],
        SignType::HorizonFront160x16 => seq![0x08u8, 0xB1u8, 0x00u8, 0x15u8, 0x0Cu8, 0x10u8, 0x00u8, 0xA0u8, 0x04u8, 0x00u8, 0x28u8, 0x00u8, 0x00u8, 0x00u8, 0x00u8, 0x00u8],
        SignType::HorizonFront140x16 => seq![0x08u8, 0xB2u8, 0x00u8, 0x12u8, 0x04u8, 0x10u8, 0x00u8, 0x8Cu8, 0x01u8, 0x03u8, 0x14u8, 0x28u8, 0x00u8, 0x00u8, 0x00u8, 0x00u8],
        SignType::HorizonSide96x8 => seq![0x08u8, 0xB4u8, 0x00u8, 0x07u8, 0x0Cu8, 0x08u8, 0x00u8, 0x60u8, 0x02u8, 0x00u8, 0x30u8, 0x00u8, 0x00u8, 0x00u8, 0x00u8, 0x00u8],
        SignType::HorizonRear48x16 => seq![0x08u8, 0xB5u8, 0x00u8, 0x07u8, 0x0Cu8, 0x10u8, 0x00u8, 0x30u8, 0x01u8, 0x00u8, 0x30u8, 0x00u8, 0x00u8, 0x00u8, 0x00u8, 0x00u8],
        SignType::HorizonDash40x12 => seq![0x08u8, 0xB9u8, 0x00u8, 0x06u8, 0x8Cu8, 0x0Cu8, 0x00u8, 0x28u8, 0x01u8, 0x00u8, 0x28u8, 0x00u8, 0x04u8, 0x00u8, 0x00u8, 0x00u8],
    }
}

/// The width and height in pixels of a sign type.
pub open spec fn sign_dimensions(s: SignType) -> (u32, u32) {
    match s {
        SignType::Max3000Front112x16 => (112, 16),
        SignType::Max3000Front98x16 => (98, 16),
        SignType::Max3000Side90x7 => (90, 7),
        SignType::Max3000Rear30x10 => (30, 10),
        SignType::Max3000Rear23x10 => (23, 10),
        SignType::Max3000Dash30x7 => (30, 7),
        SignType::HorizonFront160x16 => (160, 16),
        SignType::HorizonFront140x16 => (140, 16),
        SignType::HorizonSide96x8 => (96, 8),
        SignType::HorizonRear48x16 => (48, 16),
        SignType::HorizonDash40x12 => (40, 12),
    }
}

/// The sign type whose configuration starts with the given two bytes, if any.
pub open spec fn sign_type_of_key(b0: u8, b1: u8) -> Option<SignType> {
    if b0 == 0x04 && b1 == 0x47 {
        Some(SignType::Max3000Front112x16)
    } else if b0 == 0x04 && b1 == 0x4D {
        Some(SignType::Max3000Front98x16)
    } else if b0 == 0x04 && b1 == 0x20 {
        Some(SignType::Max3000Side90x7)
    } else if b0 == 0x04 && b1 == 0x62 {
        Some(SignType::Max3000Rear30x10)
    } else if b0 == 0x04 && b1 == 0x61 {
        Some(SignType::Max3000Rear23x10)
    } else if b0 == 0x04 && b1 == 0x26 {
        Some(SignType::Max3000Dash30x7)
    } else if b0 == 0x08 && b1 == 0xB1 {
        Some(SignType::HorizonFront160x16)
    } else if b0 == 0x08 && b1 == 0xB2 {
        Some(SignType::HorizonFront140x16)
    } else if b0 == 0x08 && b1 == 0xB4 {
        Some(SignType::HorizonSide96x8)
    } else if b0 == 0x08 && b1 == 0xB5 {
        Some(SignType::HorizonRear48x16)
    } else if b0 == 0x08 && b1 == 0xB9 {
        Some(SignType::HorizonDash40x12)
    } else {
        None
    }
}

/// The sign type whose whole 16-byte configuration block is `block`, if any.
pub open spec fn sign_type_of_block(block: Seq<u8>) -> Option<SignType> {
    match sign_type_of_key(block[0], block[1]) {
        Some(t) => if config_bytes(t) == block {
            Some(t)
        } else {
            None
        },
        None => None,
    }
}

/// A block names a sign type exactly when it is that type's whole configuration block.
pub proof fn lemma_sign_type_of_block(block: Seq<u8>, s: SignType)
    ensures
        sign_type_of_block(block) == Some(s) <==> config_bytes(s) == block,
{
    lemma_sign_type_round_trip(s);
}

/// Reading back the configuration block of any sign type gives that sign type.
pub proof fn lemma_sign_type_round_trip(s: SignType)
    ensures
        config_bytes(s).len() == 16,
        sign_type_of_key(config_bytes(s)[0], config_bytes(s)[1]) == Some(s),
{
}

impl SignType {
    /// Converts 16 bytes of configuration data into a `SignType`.
    ///
    /// Fails with `WrongConfigLength` when the data is not 16 bytes long and with
    /// `UnknownConfig` when its first two bytes match no known sign type.
    pub fn from_bytes(bytes: &[u8]) -> (r: Result<SignType, SignTypeError>)
        ensures
            bytes@.len() != 16 ==> r == Err::<SignType, SignTypeError>(
                SignTypeError::WrongConfigLength { expected: 16, actual: bytes@.len() as usize },
            ),
            bytes@.len() == 16 ==> match sign_type_of_key(bytes@[0], bytes@[1]) {
                Some(s) => r == Ok::<SignType, SignTypeError>(s),
                None => r matches Err(SignTypeError::UnknownConfig { bytes: b }) && b@ == bytes@,
            },
    {
        if bytes.len() != 16 {
            return Err(SignTypeError::WrongConfigLength { expected: 16, actual: bytes.len() });
        }
        match (bytes[0], bytes[1]) {
            (0x04, 0x47) => Ok(SignType::Max3000Front112x16),
            (0x04, 0x4D) => Ok(SignType::Max3000Front98x16),
            (0x04, 0x20) => Ok(SignType::Max3000Side90x7),
            (0x04, 0x62) => Ok(SignType::Max3000Rear30x10),
            (0x04, 0x61) => Ok(SignType::Max3000Rear23x10),
            (0x04, 0x26) => Ok(SignType::Max3000Dash30x7),
            (0x08, 0xB1) => Ok(SignType::HorizonFront160x16),
            (0x08, 0xB2) => Ok(SignType::HorizonFront140x16),
            (0x08, 0xB4) => Ok(SignType::HorizonSide96x8),
            (0x08, 0xB5) => Ok(SignType::HorizonRear48x16),
            (0x08, 0xB9) => Ok(SignType::HorizonDash40x12),
            _ => Err(SignTypeError::UnknownConfig { bytes: crate::frame::copy_bytes(bytes) }),
        }
    }

    /// The width and height, in pixels, of this sign type.
    pub fn dimensions(self) -> (r: (u32, u32))
        ensures
            r == sign_dimensions(self),
    {
        match self {
            SignType::Max3000Front112x16 => (112, 16),
            SignType::Max3000Front98x16 => (98, 16),
            SignType::Max3000Side90x7 => (90, 7),
            SignType::Max3000Rear30x10 => (30, 10),
            SignType::Max3000Rear23x10 => (23, 10),
            SignType::Max3000Dash30x7 => (30, 7),
            SignType::HorizonFront160x16 => (160, 16),
            SignType::HorizonFront140x16 => (140, 16),
            SignType::HorizonSide96x8 => (96, 8),
            SignType::HorizonRear48x16 => (48, 16),
            SignType::HorizonDash40x12 => (40, 12),
        }
    }

    /// The 16-byte configuration block of this sign type.
    pub fn to_bytes(self) -> (r: Vec<u8>)
        ensures
            r@ == config_bytes(self),
    {
        let v: Vec<u8> = match self {
            SignType::Max3000Front112x16 => vec![0x04, 0x47, 0x00, 0x0F, 0x10, 0x1C, 0x1C, 0x1C, 0x1C, 0x10, 0x00, 0x00, 0x00, 0x00, 0x00, 0x00],
            SignType::Max3000Front98x16 => vec![0x04, 0x4D, 0x00, 0x0D, 0x10, 0x0E, 0x1C, 0x1C, 0x1C, 0x10, 0x00, 0x00, 0x00, 0x00, 0x00, 0x00],
            SignType::Max3000Side90x7 => vec![0x04, 0x20, 0x00, 0x06, 0x07, 0x1E, 0x1E, 0x1E, 0x00, 0x08, 0x00, 0x00, 0x00, 0x00, 0x00, 0x00],
            SignType::Max3000Rear30x10 => vec![0x04, 0x62, 0x00, 0x04, 0x0A, 0x1E, 0x00, 0x00, 0x00, 0x10, 0x00, 0x00, 0x00, 0x00, 0x00, 0x00],
            SignType::Max3000Rear23x10 => vec![0x04, 0x61, 0x00, 0x04, 0x0A, 0x17, 0x00, 0x00, 0x00, 0x10, 0x00, 0x00, 0x00, 0x00, 0x00, 0x00],
            SignType::Max3000Dash30x7 => vec![0x04, 0x26, 0x00, 0x03, 0x07, 0x1E, 0x00, 0x00, 0x00, 0x08, 0x00, 0x00, 0x00, 0x00, 0x00, 0x00],
            SignType::HorizonFront160x16 => vec![0x08, 0xB1, 0x00, 0x15, 0x0C, 0x10, 0x00, 0xA0, 0x04, 0x00, 0x28, 0x00, 0x00, 0x00, 0x00, 0x00],
            SignType::HorizonFront140x16 => vec![0x08, 0xB2, 0x00, 0x12, 0x04, 0x10, 0x00, 0x8C, 0x01, 0x03, 0x14, 0x28, 0x00, 0x00, 0x00, 0x00],
            SignType::HorizonSide96x8 => vec![0x08, 0xB4, 0x00, 0x07, 0x0C, 0x08, 0x00, 0x60, 0x02, 0x00, 0x30, 0x00, 0x00, 0x00, 0x00, 0x00],
            SignType::HorizonRear48x16 => vec![0x08, 0xB5, 0x00, 0x07, 0x0C, 0x10, 0x00, 0x30, 0x01, 0x00, 0x30, 0x00, 0x00, 0x00, 0x00, 0x00],
            SignType::HorizonDash40x12 => vec![0x08, 0xB9, 0x00, 0x06, 0x8C, 0x0C, 0x00, 0x28, 0x01, 0x00, 0x28, 0x00, 0x04, 0x00, 0x00, 0x00],
        };
        proof {
            assert(v@ =~= config_bytes(self));
        }
        v
    }
}

} // verus!
