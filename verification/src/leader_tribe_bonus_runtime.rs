//! The conquest-power owner and the `LeaderData` setup queries `has_tribe_bonus`
//! (`0x006E1370`) and `get_diff` (`0x006EC000`).
//!
//! `LeaderData::has_tribe_bonus` reads the three-byte payload of `BitMask<24>
//! conquest_racial_powers` at `LeaderData +0x6D94`. The BitMask header and pointer are
//! allocator history, not semantic state; [`CanonicalConquestRacialPowers`] owns exactly the
//! walked 24-bit payload.
use vstd::prelude::*;

verus! {

pub const LEADER_COUNT: usize = 8;
pub const TRIBE_BONUS_COUNT: usize = 24;
pub const CONQUEST_POWER_BYTES_PER_LEADER: usize = 3;
pub const CONQUEST_POWER_TABLE_BYTES: usize = 24;
pub const HAS_TRIBE_BONUS_VA: u32 = 0x006e_1370;
pub const GET_DIFF_VA: u32 = 0x006e_c000;

/// The payload of `BitMask<24> conquest_racial_powers`.
#[derive(Clone, Copy, Debug, Default, PartialEq, Eq)]
pub struct CanonicalConquestRacialPowers {
    payload: [u8; 3],
}

impl View for CanonicalConquestRacialPowers {
    type V = Seq<u8>;

    closed spec fn view(&self) -> Seq<u8> {
        self.payload@
    }
}

/// The 24-bit little-endian word three payload bytes encode.
pub open spec fn mask_of(p: Seq<u8>) -> int {
    p[0] as int + 256 * (p[1] as int) + 65536 * (p[2] as int)
}

/// Bit `bonus` (`0..24`) of a three-byte payload.
pub open spec fn payload_bit(p: Seq<u8>, bonus: int) -> bool {
    p[bonus / 8] & (1u8 << ((bonus % 8) as u8)) != 0
}

/// Setting or clearing bit `k` (`0..8`) of a byte leaves every other bit alone.
proof fn lemma_byte_bit(b: u8, k: u8, j: u8)
    requires
        k < 8,
        j < 8,
    ensures
        (b | (1u8 << k)) & (1u8 << k) != 0,
        (b & !(1u8 << k)) & (1u8 << k) == 0,
        j != k ==> (b | (1u8 << k)) & (1u8 << j) == b & (1u8 << j),
        j != k ==> (b & !(1u8 << k)) & (1u8 << j) == b & (1u8 << j),
{
    assert((b | (1u8 << k)) & (1u8 << k) != 0 && (b & !(1u8 << k)) & (1u8 << k) == 0 && (j != k
        ==> (b | (1u8 << k)) & (1u8 << j) == b & (1u8 << j)) && (j != k ==> (b & !(1u8 << k)) & (
    1u8 << j) == b & (1u8 << j))) by (bit_vector)
        requires
            k < 8,
            j < 8,
    ;
}

impl CanonicalConquestRacialPowers {
    /// The owner of a given payload.
    pub fn from_payload(payload: [u8; 3]) -> (r: Self)
        ensures
            r@ == payload@,
    {
        CanonicalConquestRacialPowers { payload }
    }

    /// The three payload bytes.
    pub fn payload(self) -> (r: [u8; 3])
        ensures
            r@ == self@,
    {
        self.payload
    }

    /// The exact 24 payload bits as the decoded leader-stat word.
    pub fn decoded_mask(self) -> (r: u32)
        ensures
            r as int == mask_of(self@),
            r < 0x0100_0000,
    {
        proof {
            assert(self.payload@.len() == 3);
        }
        self.payload[0] as u32 + (self.payload[1] as u32) * 256 + (self.payload[2] as u32) * 65536
    }

    /// The payload of a decoded word; a word with bits above bit 23 is refused.
    pub fn from_decoded_mask(mask: u32) -> (r: Result<Self, ConquestPowerCodecError>)
        ensures
            mask >= 0x0100_0000 ==> r == Err::<Self, ConquestPowerCodecError>(
                ConquestPowerCodecError::BitsOutsideRetailRange(mask),
            ),
            mask < 0x0100_0000 ==> r is Ok && mask_of(r->Ok_0@) == mask && r->Ok_0@.len() == 3,
    {
        if mask >= 0x0100_0000 {
            return Err(ConquestPowerCodecError::BitsOutsideRetailRange(mask));
        }
        let b0 = (mask % 256) as u8;
        let b1 = ((mask / 256) % 256) as u8;
        let b2 = (mask / 65536) as u8;
        let r = CanonicalConquestRacialPowers { payload: [b0, b1, b2] };
        proof {
            assert(r@ =~= seq![b0, b1, b2]);
            assert(mask == (mask % 256) + 256 * ((mask / 256) % 256) + 65536 * (mask / 65536));
        }
        Ok(r)
    }

    /// Bit `bonus` of the payload; `None` outside `0..24`.
    pub fn has(self, bonus: usize) -> (r: Option<bool>)
        ensures
            bonus >= 24 ==> r is None,
            bonus < 24 ==> r == Some(payload_bit(self@, bonus as int)),
    {
        if bonus >= TRIBE_BONUS_COUNT {
            return None;
        }
        let k = (bonus % 8) as u8;
        Some(self.payload[bonus / 8] & (1u8 << k) != 0)
    }

    /// Set or clear bit `bonus`; `false` (and nothing changed) outside `0..24`.
    pub fn set(&mut self, bonus: usize, present: bool) -> (r: bool)
        ensures
            r == (bonus < 24),
            bonus >= 24 ==> *final(self) == *old(self),
            bonus < 24 ==> payload_bit(final(self)@, bonus as int) == present,
            final(self)@.len() == 3,
            forall|j: int|
                0 <= j < 24 && j != bonus ==> payload_bit(final(self)@, j) == payload_bit(
                    old(self)@,
                    j,
                ),
    {
        if bonus >= TRIBE_BONUS_COUNT {
            return false;
        }
        let k = (bonus % 8) as u8;
        let i = bonus / 8;
        let mask = 1u8 << k;
        let b = self.payload[i];
        if present {
            self.payload[i] = b | mask;
        } else {
            self.payload[i] = b & !mask;
        }
        proof {
            assert forall|j: int| 0 <= j < 24 && j != bonus implies payload_bit(self@, j)
                == payload_bit(old(self)@, j) by {
                lemma_byte_bit(b, k, (j % 8) as u8);
            }
            lemma_byte_bit(b, k, k);
        }
        true
    }

    /// The proposed Leader-row extension: the three payload bytes, without BitMask
    /// metadata.
    pub fn save_extension_bytes(self) -> (r: [u8; 3])
        ensures
            r@ == self@,
    {
        self.payload
    }

    /// The owner of a three-byte extension row; any other length is refused.
    pub fn from_save_extension_bytes(bytes: &[u8]) -> (r: Result<Self, ConquestPowerCodecError>)
        ensures
            bytes@.len() != 3 ==> r == Err::<Self, ConquestPowerCodecError>(
                ConquestPowerCodecError::Length { expected: 3, actual: bytes@.len() as usize },
            ),
            bytes@.len() == 3 ==> r is Ok && r->Ok_0@ == bytes@,
    {
        if bytes.len() != CONQUEST_POWER_BYTES_PER_LEADER {
            return Err(
                ConquestPowerCodecError::Length {
                    expected: CONQUEST_POWER_BYTES_PER_LEADER,
                    actual: bytes.len(),
                },
            );
        }
        let r = CanonicalConquestRacialPowers { payload: [bytes[0], bytes[1], bytes[2]] };
        assert(r@ =~= bytes@);
        Ok(r)
    }

    /// Every owner holds exactly three payload bytes.
    pub proof fn lemma_len(self)
        ensures
            self@.len() == 3,
    {
    }
}

/// Why a conquest-power row or word was refused.
#[derive(Clone, Copy, Debug, PartialEq, Eq)]
pub enum ConquestPowerCodecError {
    Length { expected: usize, actual: usize },
    BitsOutsideRetailRange(u32),
}

/// Decoding a payload's word gives the payload back, and encoding a word of at most 24
/// bits and decoding it gives the word back.
pub proof fn lemma_decoded_mask_round_trip(p: Seq<u8>, mask: u32)
    ensures
        p.len() == 3 ==> ({
            let m = mask_of(p);
            &&& 0 <= m < 0x0100_0000
            &&& m % 256 == p[0] && (m / 256) % 256 == p[1] && m / 65536 == p[2]
        }),
{
    if p.len() == 3 {
        let m = mask_of(p);
        assert(m % 256 == p[0] && (m / 256) % 256 == p[1] && m / 65536 == p[2]) by {
            vstd::arithmetic::div_mod::lemma_fundamental_div_mod_converse(
                m,
                256,
                p[1] as int + 256 * (p[2] as int),
                p[0] as int,
            );
            vstd::arithmetic::div_mod::lemma_fundamental_div_mod_converse(
                p[1] as int + 256 * (p[2] as int),
                256,
                p[2] as int,
                p[1] as int,
            );
            vstd::arithmetic::div_mod::lemma_fundamental_div_mod_converse(
                m,
                65536,
                p[2] as int,
                p[0] as int + 256 * (p[1] as int),
            );
        }
    }
}

/// The eight rows' extension bytes, row after row.
pub fn table_extension_bytes(rows: &[CanonicalConquestRacialPowers; 8]) -> (r: [u8; 24])
    ensures
        forall|slot: int, k: int|
            0 <= slot < 8 && 0 <= k < 3 ==> r@[slot * 3 + k] == #[trigger] rows@[slot]@[k],
{
    let mut bytes = [0u8; 24];
    let mut slot: usize = 0;
    while slot < 8
        invariant
            slot <= 8,
            bytes@.len() == 24,
            forall|s: int, k: int|
                0 <= s < slot && 0 <= k < 3 ==> bytes@[s * 3 + k] == #[trigger] rows@[s]@[k],
        decreases 8 - slot,
    {
        let row = rows[slot].save_extension_bytes();
        let start = slot * 3;
        let ghost before = bytes@;
        bytes[start] = row[0];
        bytes[start + 1] = row[1];
        bytes[start + 2] = row[2];
        proof {
            assert forall|s: int, k: int| 0 <= s < slot + 1 && 0 <= k < 3 implies bytes@[s * 3 + k]
                == #[trigger] rows@[s]@[k] by {
                if s < slot {
                    assert(before[s * 3 + k] == rows@[s]@[k]);
                    assert(s * 3 + k < start);
                } else {
                    assert(rows@[s] == rows[slot as int]);
                }
            }
        }
        slot = slot + 1;
    }
    bytes
}

/// The eight rows of a 24-byte table; any other length is refused.
pub fn table_from_extension_bytes(bytes: &[u8]) -> (r: Result<
    [CanonicalConquestRacialPowers; 8],
    ConquestPowerCodecError,
>)
    ensures
        bytes@.len() != 24 ==> r == Err::<[CanonicalConquestRacialPowers; 8], ConquestPowerCodecError>(
            ConquestPowerCodecError::Length { expected: 24, actual: bytes@.len() as usize },
        ),
        bytes@.len() == 24 ==> r is Ok && forall|slot: int, k: int|
            0 <= slot < 8 && 0 <= k < 3 ==> #[trigger] r->Ok_0@[slot]@[k] == bytes@[slot * 3 + k],
{
    if bytes.len() != CONQUEST_POWER_TABLE_BYTES {
        return Err(
            ConquestPowerCodecError::Length {
                expected: CONQUEST_POWER_TABLE_BYTES,
                actual: bytes.len(),
            },
        );
    }
    let mut rows = [CanonicalConquestRacialPowers { payload: [0u8; 3] }; 8];
    let mut slot: usize = 0;
    while slot < 8
        invariant
            slot <= 8,
            bytes@.len() == 24,
            forall|s: int, k: int|
                0 <= s < slot && 0 <= k < 3 ==> #[trigger] rows@[s]@[k] == bytes@[s * 3 + k],
        decreases 8 - slot,
    {
        let start = slot * 3;
        let row = CanonicalConquestRacialPowers {
            payload: [bytes[start], bytes[start + 1], bytes[start + 2]],
        };
        let ghost before = rows@;
        rows[slot] = row;
        proof {
            assert forall|s: int, k: int| 0 <= s < slot + 1 && 0 <= k < 3 implies #[trigger] rows@[s]@[k]
                == bytes@[s * 3 + k] by {
                if s < slot {
                    assert(rows@[s] == before[s]);
                }
            }
        }
        slot = slot + 1;
    }
    Ok(rows)
}

/// Writing a table out and reading it back gives the same eight rows.
pub proof fn lemma_table_round_trip(
    rows: [CanonicalConquestRacialPowers; 8],
    bytes: Seq<u8>,
    back: [CanonicalConquestRacialPowers; 8],
)
    requires
        bytes.len() == 24,
        forall|slot: int, k: int|
            0 <= slot < 8 && 0 <= k < 3 ==> bytes[slot * 3 + k] == #[trigger] rows@[slot]@[k],
        forall|slot: int, k: int|
            0 <= slot < 8 && 0 <= k < 3 ==> #[trigger] back@[slot]@[k] == bytes[slot * 3 + k],
    ensures
        forall|slot: int| 0 <= slot < 8 ==> (#[trigger] back@[slot])@ == rows@[slot]@,
{
    assert forall|slot: int| 0 <= slot < 8 implies (#[trigger] back@[slot])@ == rows@[slot]@ by {
        back@[slot].lemma_len();
        rows@[slot].lemma_len();
        assert forall|k: int| 0 <= k < 3 implies back@[slot]@[k] == rows@[slot]@[k] by {
            assert(back@[slot]@[k] == bytes[slot * 3 + k]);
            assert(bytes[slot * 3 + k] == rows@[slot]@[k]);
        }
        assert(back@[slot]@ =~= rows@[slot]@);
    }
}

/// The external and owned facts `LeaderData::has_tribe_bonus` reads.
#[derive(Clone, Copy, Debug, Default, PartialEq, Eq)]
pub struct TribeBonusInputs {
    /// Global no-nation-powers bit (`Game +0x20`, bit 2).
    pub no_nation_powers: bool,
    /// `GameInfo +0x2C`; zero enables the pre-first-city early return.
    pub victory: u8,
    /// `LeaderData +0x3F8`.
    pub city_num: i32,
    /// `LeaderData +0x0C`; negative means no Tribe row is attached.
    pub tribe: i32,
    /// Low byte of `LeaderData +0x04`; bit `0x40` suppresses the Tribe fallback.
    pub leader_flags2: u32,
    pub conquest_racial_powers: CanonicalConquestRacialPowers,
    /// `Tribe +0x54` for `tribe`; needed only on the final fallback.
    pub tribe_default_bonus: Option<i32>,
}

/// Where `has_tribe_bonus` returned.
#[derive(Clone, Copy, Debug, PartialEq, Eq)]
pub enum TribeBonusExit {
    NationPowersDisabled,
    NoCityBeforeVictory,
    NoTribe,
    GrantedByConquest,
    TribeFallbackSuppressed,
    GrantedByTribe,
    NotGranted,
}

/// Which facts a `has_tribe_bonus` call read, and where it returned.
#[derive(Clone, Copy, Debug, PartialEq, Eq)]
pub struct TribeBonusReceipt {
    pub exit: TribeBonusExit,
    pub read_victory: bool,
    pub read_city_num: bool,
    pub read_tribe: bool,
    pub read_conquest_payload: bool,
    pub read_leader_flags2: bool,
    pub read_tribe_default: bool,
}

/// Why `has_tribe_bonus` refused.
#[derive(Clone, Copy, Debug, PartialEq, Eq)]
pub enum TribeBonusInputError {
    InvalidBonus(i32),
    MissingTribeDefault { tribe: i32 },
}

/// The receipt of a `has_tribe_bonus` call that ran to `exit`, having read each fact up to
/// that exit.
pub open spec fn receipt_at(exit: TribeBonusExit) -> TribeBonusReceipt {
    let depth: int = match exit {
        TribeBonusExit::NationPowersDisabled => 0,
        TribeBonusExit::NoCityBeforeVictory => 1,
        TribeBonusExit::NoTribe => 2,
        TribeBonusExit::GrantedByConquest => 3,
        TribeBonusExit::TribeFallbackSuppressed => 4,
        TribeBonusExit::GrantedByTribe => 5,
        TribeBonusExit::NotGranted => 5,
    };
    TribeBonusReceipt {
        exit,
        read_victory: depth >= 1,
        read_city_num: false,
        read_tribe: depth >= 2,
        read_conquest_payload: depth >= 3,
        read_leader_flags2: depth >= 4,
        read_tribe_default: depth >= 5,
    }
}

/// `LeaderData::has_tribe_bonus`: nation powers off, then (before victory) no city, then no
/// tribe, deny; a conquest-power bit grants; leader flag `0x40` suppresses the fallback;
/// otherwise the tribe's default bonus decides.
pub open spec fn tribe_bonus_spec(inputs: TribeBonusInputs, bonus: i32) -> Result<
    (bool, TribeBonusReceipt),
    TribeBonusInputError,
> {
    let read_city = inputs.victory == 0;
    let with_city = |r: TribeBonusReceipt| TribeBonusReceipt { read_city_num: read_city, ..r };
    if !(0 <= bonus < 24) {
        Err(TribeBonusInputError::InvalidBonus(bonus))
    } else if inputs.no_nation_powers {
        Ok((false, receipt_at(TribeBonusExit::NationPowersDisabled)))
    } else if inputs.victory == 0 && inputs.city_num == 0 {
        Ok((false, with_city(receipt_at(TribeBonusExit::NoCityBeforeVictory))))
    } else if inputs.tribe < 0 {
        Ok((false, with_city(receipt_at(TribeBonusExit::NoTribe))))
    } else if payload_bit(inputs.conquest_racial_powers@, bonus as int) {
        Ok((true, with_city(receipt_at(TribeBonusExit::GrantedByConquest))))
    } else if inputs.leader_flags2 & 0x40 != 0 {
        Ok((false, with_city(receipt_at(TribeBonusExit::TribeFallbackSuppressed))))
    } else {
        match inputs.tribe_default_bonus {
            None => Err(TribeBonusInputError::MissingTribeDefault { tribe: inputs.tribe }),
            Some(d) => if d == bonus {
                Ok((true, with_city(receipt_at(TribeBonusExit::GrantedByTribe))))
            } else {
                Ok((false, with_city(receipt_at(TribeBonusExit::NotGranted))))
            },
        }
    }
}

/// `LeaderData::has_tribe_bonus` `0x006E1370`, the complete 133 bytes. An index outside
/// `0..24` and a missing Tribe row are refused rather than read out of bounds.
pub fn has_tribe_bonus(inputs: TribeBonusInputs, bonus: i32) -> (r: Result<
    (bool, TribeBonusReceipt),
    TribeBonusInputError,
>)
    ensures
        r == tribe_bonus_spec(inputs, bonus),
{
    if bonus < 0 || bonus >= 24 {
        return Err(TribeBonusInputError::InvalidBonus(bonus));
    }
    let bonus_index = bonus as usize;
    let mut receipt = TribeBonusReceipt {
        exit: TribeBonusExit::NationPowersDisabled,
        read_victory: false,
        read_city_num: false,
        read_tribe: false,
        read_conquest_payload: false,
        read_leader_flags2: false,
        read_tribe_default: false,
    };
    if inputs.no_nation_powers {
        return Ok((false, receipt));
    }
    receipt.read_victory = true;
    if inputs.victory == 0 {
        receipt.read_city_num = true;
        if inputs.city_num == 0 {
            receipt.exit = TribeBonusExit::NoCityBeforeVictory;
            return Ok((false, receipt));
        }
    }
    receipt.read_tribe = true;
    if inputs.tribe < 0 {
        receipt.exit = TribeBonusExit::NoTribe;
        return Ok((false, receipt));
    }
    receipt.read_conquest_payload = true;
    let granted_by_conquest = match inputs.conquest_racial_powers.has(bonus_index) {
        Some(b) => b,
        None => false,
    };
    if granted_by_conquest {
        receipt.exit = TribeBonusExit::GrantedByConquest;
        return Ok((true, receipt));
    }
    receipt.read_leader_flags2 = true;
    if inputs.leader_flags2 & 0x40 != 0 {
        receipt.exit = TribeBonusExit::TribeFallbackSuppressed;
        return Ok((false, receipt));
    }
    receipt.read_tribe_default = true;
    let default = match inputs.tribe_default_bonus {
        Some(d) => d,
        None => {
            return Err(TribeBonusInputError::MissingTribeDefault { tribe: inputs.tribe });
        },
    };
    let granted = default == bonus;
    receipt.exit = if granted {
        TribeBonusExit::GrantedByTribe
    } else {
        TribeBonusExit::NotGranted
    };
    Ok((granted, receipt))
}

/// The bytes and fields `LeaderData::get_diff` reads.
#[derive(Clone, Copy, Debug, Default, PartialEq, Eq)]
pub struct GetDiffInputs {
    pub match_flags_820: u8,
    pub match_flags_821: u8,
    pub match_flags_822: u8,
    pub global_difficulty: u8,
    pub multi_diff: i32,
}

/// Where `get_diff` returned.
#[derive(Clone, Copy, Debug, PartialEq, Eq)]
pub enum GetDiffExit {
    ForcedLeaderDifficulty,
    GlobalFlagFallback,
    NegativeLeaderFallback,
    LeaderDifficulty,
}

/// Where `get_diff` returned and whether it read the leader's own difficulty.
#[derive(Clone, Copy, Debug, PartialEq, Eq)]
pub struct GetDiffReceipt {
    pub exit: GetDiffExit,
    pub read_multi_diff: bool,
}

/// `LeaderData::get_diff`: flag `0x820 & 4` forces the leader's raw dword; `0x821 & 0x10`
/// clear or `0x822 & 2` set falls back to the global difficulty, as does a negative leader
/// difficulty; otherwise the leader's own.
pub open spec fn get_diff_spec(inputs: GetDiffInputs) -> (u32, GetDiffReceipt) {
    if inputs.match_flags_820 & 4 != 0 {
        (
            inputs.multi_diff as u32,
            GetDiffReceipt { exit: GetDiffExit::ForcedLeaderDifficulty, read_multi_diff: true },
        )
    } else if inputs.match_flags_821 & 0x10 == 0 || inputs.match_flags_822 & 2 != 0 {
        (
            inputs.global_difficulty as u32,
            GetDiffReceipt { exit: GetDiffExit::GlobalFlagFallback, read_multi_diff: false },
        )
    } else if inputs.multi_diff < 0 {
        (
            inputs.global_difficulty as u32,
            GetDiffReceipt { exit: GetDiffExit::NegativeLeaderFallback, read_multi_diff: true },
        )
    } else {
        (
            inputs.multi_diff as u32,
            GetDiffReceipt { exit: GetDiffExit::LeaderDifficulty, read_multi_diff: true },
        )
    }
}

/// `LeaderData::get_diff` `0x006EC000`, the complete 58 bytes. The result is the raw dword
/// on the forced arm, so a negative `multi_diff` keeps its two's-complement pattern there.
pub fn get_diff(inputs: GetDiffInputs) -> (r: (u32, GetDiffReceipt))
    ensures
        r == get_diff_spec(inputs),
{
    if inputs.match_flags_820 & 4 != 0 {
        return (
            inputs.multi_diff as u32,
            GetDiffReceipt { exit: GetDiffExit::ForcedLeaderDifficulty, read_multi_diff: true },
        );
    }
    if inputs.match_flags_821 & 0x10 == 0 || inputs.match_flags_822 & 2 != 0 {
        return (
            inputs.global_difficulty as u32,
            GetDiffReceipt { exit: GetDiffExit::GlobalFlagFallback, read_multi_diff: false },
        );
    }
    if inputs.multi_diff < 0 {
        return (
            inputs.global_difficulty as u32,
            GetDiffReceipt { exit: GetDiffExit::NegativeLeaderFallback, read_multi_diff: true },
        );
    }
    (
        inputs.multi_diff as u32,
        GetDiffReceipt { exit: GetDiffExit::LeaderDifficulty, read_multi_diff: true },
    )
}


/// `has_tribe_bonus` gets past its early denials: a valid bonus index, nation powers on, a
/// city unless victory is set, and a tribe attached.
pub open spec fn tribe_bonus_gates_pass(inputs: TribeBonusInputs, bonus: i32) -> bool {
    &&& 0 <= bonus < 24
    &&& !inputs.no_nation_powers
    &&& (inputs.victory != 0 || inputs.city_num != 0)
    &&& inputs.tribe >= 0
}

/// Law of `has_tribe_bonus`: a bonus index outside `0..24` is refused; a call that does not
/// pass the early gates is answered `false`. Past them, a conquest power bit grants the bonus;
/// without it, leader flag `0x40` is the one thing that suppresses the tribe's own default,
/// and when that flag is clear the answer is whether the tribe's default bonus is this bonus
/// (a missing default is refused). So a granted answer always comes from the conquest bit or
/// from the tribe default with flag `0x40` clear, and its exit says which.
pub proof fn lemma_tribe_bonus_decision(inputs: TribeBonusInputs, bonus: i32)
    ensures
        ({
            let r = tribe_bonus_spec(inputs, bonus);
            let conquest = payload_bit(inputs.conquest_racial_powers@, bonus as int);
            &&& !(0 <= bonus < 24) ==> r == Err::<(bool, TribeBonusReceipt), TribeBonusInputError>(
                TribeBonusInputError::InvalidBonus(bonus),
            )
            &&& 0 <= bonus < 24 && !tribe_bonus_gates_pass(inputs, bonus) ==> (r is Ok && !r->Ok_0.0)
            &&& tribe_bonus_gates_pass(inputs, bonus) && conquest ==> (r is Ok && r->Ok_0.0
                && r->Ok_0.1.exit == TribeBonusExit::GrantedByConquest)
            &&& tribe_bonus_gates_pass(inputs, bonus) && !conquest && inputs.leader_flags2 & 0x40 != 0 ==> (r is Ok
                && !r->Ok_0.0 && r->Ok_0.1.exit == TribeBonusExit::TribeFallbackSuppressed)
            &&& tribe_bonus_gates_pass(inputs, bonus) && !conquest && inputs.leader_flags2 & 0x40 == 0 ==> match inputs.tribe_default_bonus {
                None => r == Err::<(bool, TribeBonusReceipt), TribeBonusInputError>(
                    TribeBonusInputError::MissingTribeDefault { tribe: inputs.tribe },
                ),
                Some(d) => r is Ok && r->Ok_0.0 == (d == bonus) && r->Ok_0.1.exit == if d == bonus {
                    TribeBonusExit::GrantedByTribe
                } else {
                    TribeBonusExit::NotGranted
                },
            }
            &&& r is Ok ==> (r->Ok_0.0 <==> tribe_bonus_gates_pass(inputs, bonus) && (conquest || (
            inputs.leader_flags2 & 0x40 == 0 && inputs.tribe_default_bonus == Some(bonus))))
        }),
{
}

/// Law of `get_diff`: flag `0x820 & 4` forces the leader's raw difficulty; otherwise, with
/// `0x821 & 0x10` clear or `0x822 & 2` set, the global difficulty is the answer and the
/// leader's own is not read. Past those flags the leader's own difficulty is read and is the
/// answer whenever it is non-negative; only a negative leader difficulty falls back to the
/// global one. The answer is always the leader's difficulty or the global difficulty.
pub proof fn lemma_get_diff_decision(inputs: GetDiffInputs)
    ensures
        ({
            let (d, rc) = get_diff_spec(inputs);
            let forced = inputs.match_flags_820 & 4 != 0;
            let own_allowed = inputs.match_flags_821 & 0x10 != 0 && inputs.match_flags_822 & 2 == 0;
            &&& forced ==> d == inputs.multi_diff as u32 && rc.read_multi_diff
            &&& !forced && !own_allowed ==> d == inputs.global_difficulty as u32 && !rc.read_multi_diff
            &&& !forced && own_allowed && inputs.multi_diff >= 0 ==> d == inputs.multi_diff as u32 && d
                == inputs.multi_diff && rc.read_multi_diff && rc.exit == GetDiffExit::LeaderDifficulty
            &&& !forced && own_allowed && inputs.multi_diff < 0 ==> d == inputs.global_difficulty as u32
                && rc.read_multi_diff && rc.exit == GetDiffExit::NegativeLeaderFallback
            &&& d == inputs.multi_diff as u32 || d == inputs.global_difficulty as u32
        }),
{
}

} // verus!
