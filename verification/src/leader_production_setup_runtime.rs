//! The economy owner and the rate cohort of `Leader::production_ai_setup`.
//!
//! `LeaderDataEncrypt::rate[6]` is a distinct encrypted block at `+0xAC`; it is not the
//! displayed `income[6]` block at `+0x94` or `LeaderData::base_rate[6]` at `+0x4B0`. The
//! decoded values live in [`CanonicalPlanningRates`]; the XOR applies only at a process
//! boundary.
//!
//! The cohort at `production_ai_setup` `0x006C8676..0x006C8778` is integer logic over the
//! six modified resource caps `LeaderData::get_mod_resource_cap` `0x006D65B0` produces; that
//! child converts through binary32 and is computed by the caller.
use vstd::prelude::*;
use crate::map_terrain::{i32_le_bytes, le_i32};

verus! {

pub const RESOURCE_COUNT: usize = 6;
pub const GET_MOD_RESOURCE_CAP_VA: u32 = 0x006d_65b0;
pub const PRODUCTION_AI_SETUP_VA: u32 = 0x006c_83e0;
pub const PRODUCTION_AI_RATE_COHORT_VA: u32 = 0x006c_8676;
pub const MARKET_SPECULATION_VA: u32 = 0x006c_8110;
pub const RESOURCE_CAP_XOR: u32 = 0x0000_1281;
pub const INCOME_XOR: u32 = 0x0009_0236;
pub const PLANNING_RATE_XOR: u32 = 0x0007_3862;
/// Six decoded little-endian i32 values, in resource order.
pub const PLANNING_RATE_SAVE_VALUES: usize = 6;
pub const PLANNING_RATE_SAVE_BYTES: usize = 24;

/// `(e ^ key) as i32`: the decoded value of an XOR-obfuscated dword.
pub open spec fn xor_decode(e: u32, key: u32) -> i32 {
    (e ^ key) as i32
}

/// `(d as u32) ^ key`: the obfuscated dword of a decoded value.
pub open spec fn xor_encode(d: i32, key: u32) -> u32 {
    (d as u32) ^ key
}

/// Obfuscating and deobfuscating with one key are inverse.
pub proof fn lemma_xor_round_trip(d: i32, e: u32, key: u32)
    ensures
        xor_decode(xor_encode(d, key), key) == d,
        xor_encode(xor_decode(e, key), key) == e,
{
    assert((((d as u32) ^ key) ^ key) as i32 == d && (((e ^ key) as i32) as u32) ^ key == e)
        by (bit_vector);
}

/// The `i32` four little-endian bytes encode.
pub open spec fn le_i32_value(b0: u8, b1: u8, b2: u8, b3: u8) -> i32 {
    ((b0 as u32) | ((b1 as u32) << 8u32) | ((b2 as u32) << 16u32) | ((b3 as u32) << 24u32)) as i32
}

/// Reading back the little-endian bytes of a word gives the word.
pub proof fn lemma_le_i32_round_trip(v: i32)
    ensures
        le_i32_value(le_i32(v)[0], le_i32(v)[1], le_i32(v)[2], le_i32(v)[3]) == v,
{
    let u = v as u32;
    assert((((u & 0xff) as u8) as u32 | ((((u >> 8u32) & 0xff) as u8) as u32) << 8u32 | ((((u
        >> 16u32) & 0xff) as u8) as u32) << 16u32 | (((u >> 24u32) as u8) as u32) << 24u32) as i32
        == v) by (bit_vector)
        requires
            u == v as u32,
    ;
}

/// The decoded owner of `LeaderDataEncrypt::rate[6]`. Human leaders may leave it stale;
/// that is game state and is preserved.
#[derive(Clone, Copy, Debug, Default, PartialEq, Eq)]
pub struct CanonicalPlanningRates {
    pub values: [i32; 6],
}

/// Why a planning-rate row was refused.
#[derive(Clone, Copy, Debug, PartialEq, Eq)]
pub enum PlanningRateCodecError {
    Length { expected: usize, actual: usize },
}

impl CanonicalPlanningRates {
    /// Decode the six XOR-obfuscated values read from a process.
    pub fn from_retail_encrypted(encrypted: [u32; 6]) -> (r: Self)
        ensures
            forall|i: int| 0 <= i < 6 ==> #[trigger] r.values@[i] == xor_decode(encrypted@[i], PLANNING_RATE_XOR),
    {
        let mut values = [0i32; 6];
        let mut i: usize = 0;
        while i < 6
            invariant
                i <= 6,
                forall|j: int| 0 <= j < i ==> #[trigger] values@[j] == xor_decode(encrypted@[j], PLANNING_RATE_XOR),
            decreases 6 - i,
        {
            values[i] = decode_planning_rate(encrypted[i]);
            i = i + 1;
        }
        CanonicalPlanningRates { values }
    }

    /// Project the decoded owner back to a process image.
    pub fn to_retail_encrypted(self) -> (r: [u32; 6])
        ensures
            forall|i: int| 0 <= i < 6 ==> #[trigger] r@[i] == xor_encode(self.values@[i], PLANNING_RATE_XOR),
    {
        let mut out = [0u32; 6];
        let mut i: usize = 0;
        while i < 6
            invariant
                i <= 6,
                forall|j: int| 0 <= j < i ==> #[trigger] out@[j] == xor_encode(self.values@[j], PLANNING_RATE_XOR),
            decreases 6 - i,
        {
            out[i] = encode_planning_rate(self.values[i]);
            i = i + 1;
        }
        out
    }

    /// The bytes appended to a Leader row: the six decoded values, little-endian. The XOR
    /// keys are not saved.
    pub fn save_extension_bytes(self) -> (r: [u8; 24])
        ensures
            forall|i: int, k: int|
                0 <= i < 6 && 0 <= k < 4 ==> r@[i * 4 + k] == #[trigger] le_i32(self.values@[i])[k],
    {
        let mut bytes = [0u8; 24];
        let mut i: usize = 0;
        while i < 6
            invariant
                i <= 6,
                bytes@.len() == 24,
                forall|j: int, k: int|
                    0 <= j < i && 0 <= k < 4 ==> bytes@[j * 4 + k] == #[trigger] le_i32(self.values@[j])[k],
            decreases 6 - i,
        {
            let b = i32_le_bytes(self.values[i]);
            let ghost before = bytes@;
            bytes[i * 4] = b[0];
            bytes[i * 4 + 1] = b[1];
            bytes[i * 4 + 2] = b[2];
            bytes[i * 4 + 3] = b[3];
            proof {
                assert forall|j: int, k: int| 0 <= j < i + 1 && 0 <= k < 4 implies bytes@[j * 4 + k]
                    == #[trigger] le_i32(self.values@[j])[k] by {
                    if j < i {
                        assert(before[j * 4 + k] == le_i32(self.values@[j])[k]);
                    }
                }
            }
            i = i + 1;
        }
        bytes
    }

    /// Read a 24-byte row back; any other length is refused.
    pub fn from_save_extension_bytes(bytes: &[u8]) -> (r: Result<Self, PlanningRateCodecError>)
        ensures
            bytes@.len() != 24 ==> r == Err::<Self, PlanningRateCodecError>(
                PlanningRateCodecError::Length { expected: 24, actual: bytes@.len() as usize },
            ),
            bytes@.len() == 24 ==> r is Ok && forall|i: int|
                0 <= i < 6 ==> #[trigger] r->Ok_0.values@[i] == le_i32_value(
                    bytes@[i * 4],
                    bytes@[i * 4 + 1],
                    bytes@[i * 4 + 2],
                    bytes@[i * 4 + 3],
                ),
    {
        if bytes.len() != PLANNING_RATE_SAVE_BYTES {
            return Err(
                PlanningRateCodecError::Length {
                    expected: PLANNING_RATE_SAVE_BYTES,
                    actual: bytes.len(),
                },
            );
        }
        let mut values = [0i32; 6];
        let mut i: usize = 0;
        while i < 6
            invariant
                i <= 6,
                bytes@.len() == 24,
                forall|j: int|
                    0 <= j < i ==> #[trigger] values@[j] == le_i32_value(
                        bytes@[j * 4],
                        bytes@[j * 4 + 1],
                        bytes@[j * 4 + 2],
                        bytes@[j * 4 + 3],
                    ),
            decreases 6 - i,
        {
            let v = ((bytes[i * 4] as u32) | ((bytes[i * 4 + 1] as u32) << 8u32) | ((bytes[i * 4
                + 2] as u32) << 16u32) | ((bytes[i * 4 + 3] as u32) << 24u32)) as i32;
            values[i] = v;
            i = i + 1;
        }
        Ok(CanonicalPlanningRates { values })
    }
}

/// A row written by `save_extension_bytes` reads back as the same six values.
pub proof fn lemma_save_round_trip(rates: CanonicalPlanningRates, bytes: Seq<u8>)
    requires
        bytes.len() == 24,
        forall|i: int, k: int|
            0 <= i < 6 && 0 <= k < 4 ==> bytes[i * 4 + k] == #[trigger] le_i32(rates.values@[i])[k],
    ensures
        forall|i: int|
            0 <= i < 6 ==> le_i32_value(bytes[i * 4], bytes[i * 4 + 1], bytes[i * 4 + 2], bytes[i
                * 4 + 3]) == #[trigger] rates.values@[i],
{
    assert forall|i: int| 0 <= i < 6 implies le_i32_value(
        bytes[i * 4],
        bytes[i * 4 + 1],
        bytes[i * 4 + 2],
        bytes[i * 4 + 3],
    ) == #[trigger] rates.values@[i] by {
        let v = rates.values@[i];
        assert(bytes[i * 4 + 0] == le_i32(v)[0]);
        assert(bytes[i * 4 + 1] == le_i32(v)[1]);
        assert(bytes[i * 4 + 2] == le_i32(v)[2]);
        assert(bytes[i * 4 + 3] == le_i32(v)[3]);
        lemma_le_i32_round_trip(v);
    }
}

/// `(encrypted ^ 0x1281) as i32`.
pub fn decode_resource_cap(encrypted: u32) -> (r: i32)
    ensures
        r == xor_decode(encrypted, RESOURCE_CAP_XOR),
{
    (encrypted ^ RESOURCE_CAP_XOR) as i32
}

/// `decoded as u32 ^ 0x1281`.
pub fn encode_resource_cap(decoded: i32) -> (r: u32)
    ensures
        r == xor_encode(decoded, RESOURCE_CAP_XOR),
{
    decoded as u32 ^ RESOURCE_CAP_XOR
}

/// `(encrypted ^ 0x90236) as i32`.
pub fn decode_income(encrypted: u32) -> (r: i32)
    ensures
        r == xor_decode(encrypted, INCOME_XOR),
{
    (encrypted ^ INCOME_XOR) as i32
}

/// `decoded as u32 ^ 0x90236`.
pub fn encode_income(decoded: i32) -> (r: u32)
    ensures
        r == xor_encode(decoded, INCOME_XOR),
{
    decoded as u32 ^ INCOME_XOR
}

/// `(encrypted ^ 0x73862) as i32`.
pub fn decode_planning_rate(encrypted: u32) -> (r: i32)
    ensures
        r == xor_decode(encrypted, PLANNING_RATE_XOR),
{
    (encrypted ^ PLANNING_RATE_XOR) as i32
}

/// `decoded as u32 ^ 0x73862`.
pub fn encode_planning_rate(decoded: i32) -> (r: u32)
    ensures
        r == xor_encode(decoded, PLANNING_RATE_XOR),
{
    decoded as u32 ^ PLANNING_RATE_XOR
}

/// The non-array inputs `LeaderData::get_mod_resource_cap` `0x006D65B0` reads.
#[derive(Clone, Copy, Debug, Default, PartialEq, Eq)]
pub struct ModResourceCapInputs {
    /// `starting_resources`; value 8 is the scenario/sandbox early return.
    pub starting_resources: u8,
    /// Byte at the shared game row `+0x820`; bit 2 bypasses difficulty scaling.
    pub match_flags_820: u8,
    /// First dword in `LeaderData`; bit 2 bypasses difficulty scaling.
    pub leader_flags: u32,
    /// The result of `LeaderData::get_diff` when the scaling gate is open.
    pub difficulty: i32,
}

/// The fields the setup rate cohort writes.
#[derive(Clone, Copy, Debug, Default, PartialEq, Eq)]
pub struct ProductionAiRateState {
    pub econ_flags: [u32; 6],
    pub base_rate: [i32; 6],
    pub planning_rates: CanonicalPlanningRates,
    pub worst_good: i32,
    pub best_good: i32,
    pub shortages: i32,
}

/// The inputs to the rate cohort after the setup bucket-adjustment prelude.
#[derive(Clone, Copy, Debug, Default, PartialEq, Eq)]
pub struct ProductionAiRateInputs {
    pub cap: ModResourceCapInputs,
    pub encrypted_resource_caps: [u32; 6],
    pub encrypted_income: [u32; 6],
    /// `ResourceType::type_avail(resource, 1)` `0x006E33A0`.
    pub type_available: [bool; 6],
}

/// What the cohort computed and wrote.
#[derive(Clone, Copy, Debug, PartialEq, Eq)]
pub struct ProductionAiRateReceipt {
    pub returned_for_starting_resources: bool,
    /// Which `rate` elements were written; zero for the `starting_resources == 8` return.
    pub written_mask: u8,
    pub modified_caps: [i32; 6],
    pub decoded_income: [i32; 6],
    pub capped_income: [i32; 6],
    pub encrypted_rate_writes: [u32; 6],
}

/// Truncating division by 16, as `cdq; and edx, 15; add eax, edx; sar eax, 4` computes it.
pub open spec fn trunc_div16(v: int) -> int {
    if v >= 0 {
        v / 16
    } else {
        -((-v) / 16)
    }
}

/// The planning rate of one resource: its decoded income, capped, divided by 16.
pub open spec fn rate_of(income: i32, cap: i32) -> int {
    trunc_div16(if income < cap {
        income as int
    } else {
        cap as int
    })
}

/// The resources `0..k` that are available and whose rate is below 30.
pub open spec fn shortage_count(inputs: ProductionAiRateInputs, caps: [i32; 6], k: int) -> int
    decreases k,
{
    if k <= 0 {
        0
    } else {
        shortage_count(inputs, caps, k - 1) + if inputs.type_available@[k - 1] && rate_of(
            xor_decode(inputs.encrypted_income@[k - 1], INCOME_XOR),
            caps@[k - 1],
        ) < 30 {
            1int
        } else {
            0int
        }
    }
}

/// Among available resources `0..k`, the first with the lowest rate (0 when none).
pub open spec fn worst_of(inputs: ProductionAiRateInputs, caps: [i32; 6], k: int) -> (int, int)
    decreases k,
{
    if k <= 0 {
        (0, 99_999_999)
    } else {
        let (g, lo) = worst_of(inputs, caps, k - 1);
        let r = rate_of(xor_decode(inputs.encrypted_income@[k - 1], INCOME_XOR), caps@[k - 1]);
        if inputs.type_available@[k - 1] && r < lo {
            (k - 1, r)
        } else {
            (g, lo)
        }
    }
}

/// Among available resources `0..k`, the first with the highest rate (0 when none).
pub open spec fn best_of(inputs: ProductionAiRateInputs, caps: [i32; 6], k: int) -> (int, int)
    decreases k,
{
    if k <= 0 {
        (0, -99_999_999)
    } else {
        let (g, hi) = best_of(inputs, caps, k - 1);
        let r = rate_of(xor_decode(inputs.encrypted_income@[k - 1], INCOME_XOR), caps@[k - 1]);
        if inputs.type_available@[k - 1] && r > hi {
            (k - 1, r)
        } else {
            (g, hi)
        }
    }
}

/// The cohort from its entry reset through label `0x006C8778`, given the six modified caps
/// `get_mod_resource_cap` returned for `inputs.encrypted_resource_caps` under `inputs.cap`.
///
/// With `starting_resources == 8` the cohort only resets the three counters and sets bit 8 of
/// every resource's flags. Otherwise, per resource: `base_rate` is cleared; the rate is the
/// decoded income capped at the modified cap, divided by 16 (truncating), stored decoded and
/// reported encoded; an available resource competes for worst and best good (first wins on
/// ties) and, below rate 30, gets flag bit 1 and counts as a shortage.
#[verifier::rlimit(40)]
pub fn execute_production_ai_rate_cohort(
    state: &mut ProductionAiRateState,
    inputs: ProductionAiRateInputs,
    modified_caps: [i32; 6],
) -> (r: ProductionAiRateReceipt)
    ensures
        inputs.cap.starting_resources == 8 ==> {
            &&& r.returned_for_starting_resources
            &&& r.written_mask == 0
            &&& forall|i: int| 0 <= i < 6 ==> #[trigger] r.modified_caps@[i] == 0 && r.decoded_income@[i] == 0
                && r.capped_income@[i] == 0 && r.encrypted_rate_writes@[i] == 0
            &&& forall|i: int| 0 <= i < 6 ==> #[trigger] final(state).econ_flags@[i] == old(state).econ_flags@[i] | 8
            &&& final(state).base_rate == old(state).base_rate
            &&& final(state).planning_rates == old(state).planning_rates
            &&& final(state).worst_good == 0 && final(state).best_good == 0 && final(state).shortages == 0
        },
        inputs.cap.starting_resources != 8 ==> {
            &&& !r.returned_for_starting_resources
            &&& r.written_mask == 0x3f
            &&& forall|i: int|
                0 <= i < 6 ==> {
                    let income = xor_decode(#[trigger] inputs.encrypted_income@[i], INCOME_XOR);
                    let rate = rate_of(income, modified_caps@[i]);
                    &&& r.modified_caps@[i] == modified_caps@[i]
                    &&& r.decoded_income@[i] == income
                    &&& r.capped_income@[i] == if income < modified_caps@[i] { income } else { modified_caps@[i] }
                    &&& r.encrypted_rate_writes@[i] == xor_encode(rate as i32, PLANNING_RATE_XOR)
                    &&& final(state).planning_rates.values@[i] == rate
                    &&& final(state).base_rate@[i] == 0
                    &&& final(state).econ_flags@[i] == if inputs.type_available@[i] && rate < 30 {
                        old(state).econ_flags@[i] | 1
                    } else {
                        old(state).econ_flags@[i]
                    }
                }
            &&& final(state).worst_good == worst_of(inputs, modified_caps, 6).0
            &&& final(state).best_good == best_of(inputs, modified_caps, 6).0
            &&& final(state).shortages == shortage_count(inputs, modified_caps, 6)
        },
{
    state.shortages = 0;
    state.worst_good = 0;
    state.best_good = 0;
    if inputs.cap.starting_resources == 8 {
        let mut i: usize = 0;
        while i < 6
            invariant
                i <= 6,
                forall|j: int| 0 <= j < i ==> #[trigger] state.econ_flags@[j] == old(state).econ_flags@[j] | 8,
                forall|j: int| i <= j < 6 ==> #[trigger] state.econ_flags@[j] == old(state).econ_flags@[j],
                state.base_rate == old(state).base_rate,
                state.planning_rates == old(state).planning_rates,
                state.worst_good == 0 && state.best_good == 0 && state.shortages == 0,
            decreases 6 - i,
        {
            let f = state.econ_flags[i];
            state.econ_flags[i] = f | 8;
            i = i + 1;
        }
        return ProductionAiRateReceipt {
            returned_for_starting_resources: true,
            written_mask: 0,
            modified_caps: [0i32; 6],
            decoded_income: [0i32; 6],
            capped_income: [0i32; 6],
            encrypted_rate_writes: [0u32; 6],
        };
    }
    let mut lowest_rate: i32 = 99_999_999;
    let mut highest_rate: i32 = -99_999_999;
    let mut decoded_income = [0i32; 6];
    let mut capped_income = [0i32; 6];
    let mut encrypted_rate_writes = [0u32; 6];
    let mut resource: usize = 0;
    while resource < 6
        invariant
            decoded_income@.len() == 6 && capped_income@.len() == 6 && encrypted_rate_writes@.len() == 6,
            resource <= 6,
            inputs.cap.starting_resources != 8,
            forall|i: int|
                0 <= i < resource ==> {
                    let income = xor_decode(#[trigger] inputs.encrypted_income@[i], INCOME_XOR);
                    let rate = rate_of(income, modified_caps@[i]);
                    &&& decoded_income@[i] == income
                    &&& capped_income@[i] == if income < modified_caps@[i] { income } else { modified_caps@[i] }
                    &&& encrypted_rate_writes@[i] == xor_encode(rate as i32, PLANNING_RATE_XOR)
                    &&& state.planning_rates.values@[i] == rate
                    &&& state.base_rate@[i] == 0
                    &&& state.econ_flags@[i] == if inputs.type_available@[i] && rate < 30 {
                        old(state).econ_flags@[i] | 1
                    } else {
                        old(state).econ_flags@[i]
                    }
                },
            forall|i: int| resource <= i < 6 ==> #[trigger] state.econ_flags@[i] == old(state).econ_flags@[i],
            state.worst_good == worst_of(inputs, modified_caps, resource as int).0,
            lowest_rate == worst_of(inputs, modified_caps, resource as int).1,
            state.best_good == best_of(inputs, modified_caps, resource as int).0,
            highest_rate == best_of(inputs, modified_caps, resource as int).1,
            state.shortages == shortage_count(inputs, modified_caps, resource as int),
            0 <= state.shortages <= resource,
            -99_999_999 <= highest_rate,
            lowest_rate <= 99_999_999,
        decreases 6 - resource,
    {
        let ghost st0 = *state;
        let ghost di0 = decoded_income@;
        let ghost ci0 = capped_income@;
        let ghost ew0 = encrypted_rate_writes@;
        state.base_rate[resource] = 0;
        let cap = modified_caps[resource];
        let income = decode_income(inputs.encrypted_income[resource]);
        let capped = if income < cap {
            income
        } else {
            cap
        };
        let rate = match capped.checked_div(16) {
            Some(v) => v,
            None => 0,
        };
        let encrypted_rate = encode_planning_rate(rate);
        decoded_income[resource] = income;
        capped_income[resource] = capped;
        encrypted_rate_writes[resource] = encrypted_rate;
        proof {
            lemma_xor_round_trip(rate, encrypted_rate, PLANNING_RATE_XOR);
        }
        state.planning_rates.values[resource] = decode_planning_rate(encrypted_rate);
        if inputs.type_available[resource] {
            if rate < lowest_rate {
                state.worst_good = resource as i32;
                lowest_rate = rate;
            }
            if rate > highest_rate {
                state.best_good = resource as i32;
                highest_rate = rate;
            }
            if rate < 30 {
                let f = state.econ_flags[resource];
                state.econ_flags[resource] = f | 1;
                state.shortages = state.shortages + 1;
            }
        }
        proof {
            let income_s = xor_decode(inputs.encrypted_income@[resource as int], INCOME_XOR);
            assert(income == income_s);
            assert(rate == rate_of(income_s, modified_caps@[resource as int]));
            assert(decoded_income@[resource as int] == income_s);
            assert(encrypted_rate_writes@[resource as int] == xor_encode(rate, PLANNING_RATE_XOR));
            assert(state.planning_rates.values@[resource as int] == rate);
            assert(state.base_rate@[resource as int] == 0);
            assert forall|i: int| 0 <= i < resource implies decoded_income@[i] == di0[i] && capped_income@[i] == ci0[i]
                && encrypted_rate_writes@[i] == ew0[i] && state.planning_rates.values@[i] == st0.planning_rates.values@[i]
                && state.base_rate@[i] == st0.base_rate@[i] && state.econ_flags@[i] == st0.econ_flags@[i] by {}
            assert(capped_income@[resource as int] == if income_s < modified_caps@[resource as int] { income_s } else { modified_caps@[resource as int] });
            assert(state.econ_flags@[resource as int] == if inputs.type_available@[resource as int] && rate < 30 {
                old(state).econ_flags@[resource as int] | 1
            } else {
                old(state).econ_flags@[resource as int]
            });
        }
        resource = resource + 1;
    }
    ProductionAiRateReceipt {
        returned_for_starting_resources: false,
        written_mask: 0x3f,
        modified_caps,
        decoded_income,
        capped_income,
        encrypted_rate_writes,
    }
}


/// The rate of resource `k` under the cohort's inputs and modified caps.
pub open spec fn cohort_rate(inputs: ProductionAiRateInputs, caps: [i32; 6], k: int) -> int {
    rate_of(xor_decode(inputs.encrypted_income@[k], INCOME_XOR), caps@[k])
}

/// 1 when resource `k` is available and its rate is below 30, else 0.
pub open spec fn is_shortage(inputs: ProductionAiRateInputs, caps: [i32; 6], k: int) -> int {
    if inputs.type_available@[k] && cohort_rate(inputs, caps, k) < 30 {
        1
    } else {
        0
    }
}

proof fn lemma_worst_of(inputs: ProductionAiRateInputs, caps: [i32; 6], k: int)
    requires
        0 <= k <= 6,
    ensures
        ({
            let (w, lo) = worst_of(inputs, caps, k);
            &&& lo <= 99_999_999
            &&& forall|j: int| 0 <= j < k && inputs.type_available@[j] ==> lo <= #[trigger] cohort_rate(inputs, caps, j)
            &&& if exists|j: int| 0 <= j < k && inputs.type_available@[j] && #[trigger] cohort_rate(inputs, caps, j) < 99_999_999 {
                &&& 0 <= w < k
                &&& inputs.type_available@[w]
                &&& lo == cohort_rate(inputs, caps, w)
                &&& forall|j: int| 0 <= j < w && inputs.type_available@[j] ==> #[trigger] cohort_rate(inputs, caps, j) > lo
            } else {
                w == 0 && lo == 99_999_999
            }
        }),
    decreases k,
{
    if k > 0 {
        lemma_worst_of(inputs, caps, k - 1);
        let r = cohort_rate(inputs, caps, k - 1);
        let (w0, lo0) = worst_of(inputs, caps, k - 1);
        if exists|j: int| 0 <= j < k && inputs.type_available@[j] && #[trigger] cohort_rate(inputs, caps, j) < 99_999_999 {
            let j0 = choose|j: int| 0 <= j < k && inputs.type_available@[j] && #[trigger] cohort_rate(inputs, caps, j) < 99_999_999;
            if j0 < k - 1 {
                assert(exists|j: int| 0 <= j < k - 1 && inputs.type_available@[j] && #[trigger] cohort_rate(inputs, caps, j) < 99_999_999);
            }
        } else {
            assert(!(inputs.type_available@[k - 1] && r < 99_999_999));
            assert(!exists|j: int| 0 <= j < k - 1 && inputs.type_available@[j] && #[trigger] cohort_rate(inputs, caps, j) < 99_999_999);
        }
    }
}

proof fn lemma_best_of(inputs: ProductionAiRateInputs, caps: [i32; 6], k: int)
    requires
        0 <= k <= 6,
    ensures
        ({
            let (b, hi) = best_of(inputs, caps, k);
            &&& hi >= -99_999_999
            &&& forall|j: int| 0 <= j < k && inputs.type_available@[j] ==> hi >= #[trigger] cohort_rate(inputs, caps, j)
            &&& if exists|j: int| 0 <= j < k && inputs.type_available@[j] && #[trigger] cohort_rate(inputs, caps, j) > -99_999_999 {
                &&& 0 <= b < k
                &&& inputs.type_available@[b]
                &&& hi == cohort_rate(inputs, caps, b)
                &&& forall|j: int| 0 <= j < b && inputs.type_available@[j] ==> #[trigger] cohort_rate(inputs, caps, j) < hi
            } else {
                b == 0 && hi == -99_999_999
            }
        }),
    decreases k,
{
    if k > 0 {
        lemma_best_of(inputs, caps, k - 1);
        let r = cohort_rate(inputs, caps, k - 1);
        if exists|j: int| 0 <= j < k && inputs.type_available@[j] && #[trigger] cohort_rate(inputs, caps, j) > -99_999_999 {
            let j0 = choose|j: int| 0 <= j < k && inputs.type_available@[j] && #[trigger] cohort_rate(inputs, caps, j) > -99_999_999;
            if j0 < k - 1 {
                assert(exists|j: int| 0 <= j < k - 1 && inputs.type_available@[j] && #[trigger] cohort_rate(inputs, caps, j) > -99_999_999);
            }
        } else {
            assert(!(inputs.type_available@[k - 1] && r > -99_999_999));
            assert(!exists|j: int| 0 <= j < k - 1 && inputs.type_available@[j] && #[trigger] cohort_rate(inputs, caps, j) > -99_999_999);
        }
    }
}

/// Law of the rate cohort's picks, over the six resources: the shortage count is the number
/// of available resources whose rate is below 30; the worst good is the first available
/// resource with the least rate and the best good the first with the greatest rate. Where no
/// available rate is below the sentinel 99,999,999 (above -99,999,999 for the best good),
/// the pick stays 0.
pub proof fn lemma_rate_cohort_picks(inputs: ProductionAiRateInputs, caps: [i32; 6])
    ensures
        shortage_count(inputs, caps, 6) == is_shortage(inputs, caps, 0) + is_shortage(inputs, caps, 1)
            + is_shortage(inputs, caps, 2) + is_shortage(inputs, caps, 3) + is_shortage(inputs, caps, 4)
            + is_shortage(inputs, caps, 5),
        ({
            let w = worst_of(inputs, caps, 6).0;
            if exists|j: int| 0 <= j < 6 && inputs.type_available@[j] && #[trigger] cohort_rate(inputs, caps, j) < 99_999_999 {
                &&& 0 <= w < 6
                &&& inputs.type_available@[w]
                &&& forall|j: int| 0 <= j < 6 && inputs.type_available@[j] ==> cohort_rate(inputs, caps, w) <= #[trigger] cohort_rate(inputs, caps, j)
                &&& forall|j: int| 0 <= j < w && inputs.type_available@[j] ==> #[trigger] cohort_rate(inputs, caps, j) > cohort_rate(inputs, caps, w)
            } else {
                w == 0
            }
        }),
        ({
            let b = best_of(inputs, caps, 6).0;
            if exists|j: int| 0 <= j < 6 && inputs.type_available@[j] && #[trigger] cohort_rate(inputs, caps, j) > -99_999_999 {
                &&& 0 <= b < 6
                &&& inputs.type_available@[b]
                &&& forall|j: int| 0 <= j < 6 && inputs.type_available@[j] ==> cohort_rate(inputs, caps, b) >= #[trigger] cohort_rate(inputs, caps, j)
                &&& forall|j: int| 0 <= j < b && inputs.type_available@[j] ==> #[trigger] cohort_rate(inputs, caps, j) < cohort_rate(inputs, caps, b)
            } else {
                b == 0
            }
        }),
{
    lemma_worst_of(inputs, caps, 6);
    lemma_best_of(inputs, caps, 6);
    reveal_with_fuel(shortage_count, 7);
}

} // verus!
