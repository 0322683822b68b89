//! Every retail address the production machine names.
use vstd::prelude::*;

verus! {

/// `Leader::plan_strategy`, 11,108 bytes.
pub const PLAN_STRATEGY: u32 = 0x006b_9620;
/// `Leader::production_ai`, 628 bytes.
pub const PRODUCTION_AI: u32 = 0x006c_1960;
/// The single `call 0x6C1960` inside `plan_strategy`.
pub const PLAN_STRATEGY_PRODUCTION_CALL: u32 = 0x006b_9662;
/// `jne 0x6BC0F7` — the `phase % 30` early return.
pub const PLAN_STRATEGY_SUB_PHASE_MISS: u32 = 0x006b_9698;
/// The plain epilogue every early return jumps to.
pub const PLAN_STRATEGY_RETURN: u32 = 0x006b_c0f7;
/// `mov eax, [ebx + 0x6ED8]` — the `MakeList::list` read that opens the fast lane.
pub const PLAN_STRATEGY_MAKE_LIST_READ: u32 = 0x006b_969e;
/// The 11,108-byte planning body proper (`frame == 0 || phase == 0`).
pub const PLAN_STRATEGY_BODY: u32 = 0x006b_96f9;
/// `Leader::can_pay(int)`, 79 bytes.
pub const CAN_PAY: u32 = 0x006c_9b90;
/// `LeaderData::has_tech(TypeIndex) const`, 176 bytes.
pub const HAS_TECH: u32 = 0x006e_0c80;
/// `LeaderData::researching(TypeIndex, int, int, int) const`, 364 bytes.
pub const RESEARCHING: u32 = 0x006d_b510;
/// `Leader::make_this(int)`, 1,309 bytes.
pub const MAKE_THIS: u32 = 0x006c_94f0;
/// `Leader::queued_units()`, 394 bytes.
pub const QUEUED_UNITS: u32 = 0x006c_e000;
/// `RunTimeEnv::run_script(const String&, int, ...)` — the BHS entry point.
pub const RUN_SCRIPT: u32 = 0x0043_d0e0;
/// `RunTimeEnv::get_ret_int()`, 20 bytes.
pub const GET_RET_INT: u32 = 0x0047_d9e0;
/// `Leader::production_ai_setup()`, 1,807 bytes.
pub const PRODUCTION_AI_SETUP: u32 = 0x006c_83e0;
/// `MakeList::clear()`, 210 bytes.
pub const MAKE_LIST_CLEAR: u32 = 0x006c_9db0;
/// `Leader::found_cities()`, 1,708 bytes.
pub const FOUND_CITIES: u32 = 0x006c_7a60;
/// `Leader::research_techs()`, 3,776 bytes.
pub const RESEARCH_TECHS: u32 = 0x006c_6ba0;
/// `Leader::upgrade_units()`, 1,902 bytes.
pub const UPGRADE_UNITS: u32 = 0x006c_6430;
/// `Leader::create_units()`, 9,104 bytes.
pub const CREATE_UNITS: u32 = 0x006c_40a0;
/// `Leader::create_buildings()`, 9,405 bytes.
pub const CREATE_BUILDINGS: u32 = 0x006c_1be0;
/// `Leader::make_stuff()`, 1,732 bytes.
pub const MAKE_STUFF: u32 = 0x006c_8af0;
/// The 11-entry `jmp dword [ecx*4 + 0x6C1BA8]` table, indexed `production_step - 1`.
pub const PRODUCTION_STEP_TABLE: u32 = 0x006c_1ba8;
/// `mov dword [edi + 0x788], 0` — every refusal and the end of the cycle land here.
pub const PRODUCTION_STEP_RESET: u32 = 0x006c_1b96;
/// `GameAccess::ai_speed`, the pointer slot at `0x00C061C0`.
pub const AI_SPEED_PTR: u32 = 0x00c0_61c0;
/// `GameAccess::ai_off`, the pointer slot at `0x00C061C4`.
pub const AI_OFF_PTR: u32 = 0x00c0_61c4;
/// `ScenarioFuncSet::enable_production_ai`.
pub const ENABLE_PRODUCTION_AI: u32 = 0x009f_f5e0;
/// `ScenarioFuncSet::disable_production_ai`.
pub const DISABLE_PRODUCTION_AI: u32 = 0x009f_f7a0;
/// `ScenarioFuncSet::change_to_ai` — the writer that names `leader_flags & 4`.
pub const CHANGE_TO_AI: u32 = 0x009e_5d20;

} // verus!
