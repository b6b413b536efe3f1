//! Decoding the AMD Family 17h+ thermal register read through the PawnIO
//! kernel driver, and the request and reply of its SMN read function.
use vstd::prelude::*;

verus! {

/// PawnIO device type, in the high 16 bits of its IOCTL codes.
pub const PAWNIO_DEVICE_TYPE: u32 = 0xA1B2_0000;

/// IOCTL that loads a bytecode module.
pub const IOCTL_PIO_LOAD_BINARY: u32 = 0xA1B2_2084;

/// IOCTL that executes a function of the loaded module.
pub const IOCTL_PIO_EXECUTE_FN: u32 = 0xA1B2_2104;

/// Length of the function-name field of an execute request.
pub const FN_NAME_LENGTH: usize = 32;

/// Length of an SMN read request: the function name field and an `i64` address.
pub const SMN_REQUEST_LEN: usize = 40;

/// SMN address of the current temperature control register (THM_TCON_CUR_TMP).
pub const F17H_M01H_THM_TCON_CUR_TMP: u32 = 0x0005_9800;

/// Range-select bit: the reading carries a -49 °C offset.
pub const F17H_TEMP_RANGE_SEL_MASK: u32 = 0x0008_0000;

/// Tj-select bits: when both are set the reading carries a -49 °C offset.
pub const F17H_TEMP_TJ_SEL_MASK: u32 = 0x0003_0000;

/// The IOCTL codes are `device type | (function << 2)` for functions 0x821 and 0x841.
pub proof fn lemma_ioctl_codes()
    ensures
        PAWNIO_DEVICE_TYPE == 41394u32 << 16u32,
        IOCTL_PIO_LOAD_BINARY == PAWNIO_DEVICE_TYPE | (0x821u32 << 2u32),
        IOCTL_PIO_EXECUTE_FN == PAWNIO_DEVICE_TYPE | (0x841u32 << 2u32),
{
    assert(0xA1B2_0000u32 == 41394u32 << 16u32) by (bit_vector);
    assert(0xA1B2_2084u32 == 0xA1B2_0000u32 | (0x821u32 << 2u32)) by (bit_vector);
    assert(0xA1B2_2104u32 == 0xA1B2_0000u32 | (0x841u32 << 2u32)) by (bit_vector);
}

/// Whether the register reports temperatures with the -49 °C offset.
pub open spec fn spec_has_offset(raw: u32) -> bool {
    (raw & F17H_TEMP_RANGE_SEL_MASK) != 0 || (raw & F17H_TEMP_TJ_SEL_MASK)
        == F17H_TEMP_TJ_SEL_MASK
}

/// The 11-bit temperature field (bits 21..=31), in eighths of a degree.
pub open spec fn spec_raw_eighths(raw: u32) -> u32 {
    (raw >> 21u32) & 0x7FF
}

/// The temperature in eighths of a degree Celsius, offset applied.
pub open spec fn spec_temp_eighths(raw: u32) -> int {
    spec_raw_eighths(raw) as int - (if spec_has_offset(raw) {
        392int
    } else {
        0int
    })
}

/// The CPU temperature a register value gives: `field / 8`, minus 49 with
/// the offset, rounded to whole degrees; `None` outside 1..=125 °C.
pub open spec fn spec_decode_amd_temp(raw: u32) -> Option<u8> {
    let t = spec_temp_eighths(raw);
    if 8 <= t <= 1000 {
        Some(((t + 4) / 8) as u8)
    } else {
        None
    }
}

/// Decodes a THM_TCON_CUR_TMP register value into whole degrees Celsius.
pub fn decode_amd_temp(raw: u32) -> (t: Option<u8>)
    ensures
        t == spec_decode_amd_temp(raw),
{
    let offset = (raw & F17H_TEMP_RANGE_SEL_MASK) != 0 || (raw & F17H_TEMP_TJ_SEL_MASK)
        == F17H_TEMP_TJ_SEL_MASK;
    let field: u32 = (raw >> 21u32) & 0x7FF;
    assert(((raw >> 21u32) & 0x7FF) <= 0x7FF) by (bit_vector);
    let eighths: i32 = if offset {
        field as i32 - 392
    } else {
        field as i32
    };
    if 8 <= eighths && eighths <= 1000 {
        Some(((eighths + 4) / 8) as u8)
    } else {
        None
    }
}

/// The request of the `ioctl_read_smn` function: its name, zero-padded to 32
/// bytes, then the address as a little-endian `i64`.
pub open spec fn spec_smn_request(address: u32) -> Seq<u8> {
    "ioctl_read_smn"@.map_values(|c: char| c as u8) + Seq::new(18, |i: int| 0u8) + seq![
        (address % 0x100) as u8,
        ((address / 0x100) % 0x100) as u8,
        ((address / 0x1_0000) % 0x100) as u8,
        (address / 0x100_0000) as u8,
        0u8,
        0u8,
        0u8,
        0u8,
    ]
}

/// Builds the request of the `ioctl_read_smn` function for `address`. Windows
/// targets are little-endian, so this is the native byte order of the `i64`.
pub fn smn_request(address: u32) -> (buf: [u8; 40])
    ensures
        buf@ == spec_smn_request(address),
{
    let b0 = (address % 0x100) as u8;
    let b1 = ((address / 0x100) % 0x100) as u8;
    let b2 = ((address / 0x1_0000) % 0x100) as u8;
    let b3 = (address / 0x100_0000) as u8;
    let buf: [u8; 40] = [
        105, 111, 99, 116, 108, 95, 114, 101, 97, 100, 95, 115, 109, 110,
        0, 0, 0, 0, 0, 0, 0, 0, 0, 0, 0, 0, 0, 0, 0, 0, 0, 0,
        b0, b1, b2, b3, 0, 0, 0, 0,
    ];
    proof {
        reveal_strlit("ioctl_read_smn");
        assert(buf@ =~= spec_smn_request(address));
    }
    buf
}

/// The register value an execute reply gives: the low 32 bits of the first
/// output `i64`, when the call succeeded and returned at least 8 bytes.
pub open spec fn spec_smn_reply(ok: bool, bytes_returned: u32, value: i64) -> Option<u32> {
    if ok && bytes_returned >= 8 {
        Some(value as u32)
    } else {
        None
    }
}

/// The register value an execute reply gives.
pub fn smn_reply(ok: bool, bytes_returned: u32, value: i64) -> (r: Option<u32>)
    ensures
        r == spec_smn_reply(ok, bytes_returned, value),
{
    if ok && bytes_returned >= 8 {
        Some(value as u32)
    } else {
        None
    }
}

/// Decoded temperatures stay within 1..=125 °C.
pub proof fn lemma_decoded_temp_range(raw: u32)
    ensures
        spec_decode_amd_temp(raw) matches Some(t) ==> 1 <= t <= 125,
{
}

/// A telemetry module the PawnIO driver can load.
#[derive(Debug, Clone, Copy, PartialEq, Eq, Structural)]
pub enum ModuleKind {
    /// AMD Family 17h/19h/1Ah SMN access (`AMDFamily17.bin`).
    AmdFamily17,
    /// Intel MSR access (`IntelMSR.bin`).
    IntelMsr,
}

/// Where loading the telemetry modules stands.
#[derive(Debug, Clone, Copy, PartialEq, Eq, Structural)]
pub enum PawnIoModules {
    /// No load attempted yet.
    Unloaded,
    /// Waiting for the outcome of loading this module.
    Loading(ModuleKind),
    /// This module is loaded; no other will be.
    Loaded(ModuleKind),
    /// Neither module loaded.
    Unavailable,
}

/// What the caller should do next.
#[derive(Debug, Clone, Copy, PartialEq, Eq, Structural)]
pub enum ModuleAction {
    /// Load this module with `IOCTL_PIO_LOAD_BINARY` and report whether it loaded.
    Load(ModuleKind),
    /// Loading is over.
    Finish,
}

/// The first step once the driver is open: try the AMD module.
pub open spec fn spec_begin_loading() -> (PawnIoModules, ModuleAction) {
    (
        PawnIoModules::Loading(ModuleKind::AmdFamily17),
        ModuleAction::Load(ModuleKind::AmdFamily17),
    )
}

/// One step of loading: the AMD module is tried first and the Intel module
/// only when it did not load; the first module that loads is the one kept.
pub open spec fn spec_module_step(s: PawnIoModules, loaded: bool) -> (PawnIoModules, ModuleAction) {
    match s {
        PawnIoModules::Loading(ModuleKind::AmdFamily17) => if loaded {
            (PawnIoModules::Loaded(ModuleKind::AmdFamily17), ModuleAction::Finish)
        } else {
            (
                PawnIoModules::Loading(ModuleKind::IntelMsr),
                ModuleAction::Load(ModuleKind::IntelMsr),
            )
        },
        PawnIoModules::Loading(ModuleKind::IntelMsr) => if loaded {
            (PawnIoModules::Loaded(ModuleKind::IntelMsr), ModuleAction::Finish)
        } else {
            (PawnIoModules::Unavailable, ModuleAction::Finish)
        },
        _ => (s, ModuleAction::Finish),
    }
}

impl PawnIoModules {
    /// The first step once the driver is open: try the AMD module.
    pub fn begin_loading() -> (r: (PawnIoModules, ModuleAction))
        ensures
            r == spec_begin_loading(),
    {
        (
            PawnIoModules::Loading(ModuleKind::AmdFamily17),
            ModuleAction::Load(ModuleKind::AmdFamily17),
        )
    }

    /// The next state and action after the current load reported `loaded`.
    pub fn step(&self, loaded: bool) -> (r: (PawnIoModules, ModuleAction))
        ensures
            r == spec_module_step(*self, loaded),
    {
        match *self {
            PawnIoModules::Loading(ModuleKind::AmdFamily17) => if loaded {
                (PawnIoModules::Loaded(ModuleKind::AmdFamily17), ModuleAction::Finish)
            } else {
                (
                    PawnIoModules::Loading(ModuleKind::IntelMsr),
                    ModuleAction::Load(ModuleKind::IntelMsr),
                )
            },
            PawnIoModules::Loading(ModuleKind::IntelMsr) => if loaded {
                (PawnIoModules::Loaded(ModuleKind::IntelMsr), ModuleAction::Finish)
            } else {
                (PawnIoModules::Unavailable, ModuleAction::Finish)
            },
            _ => (*self, ModuleAction::Finish),
        }
    }

    /// Whether the AMD module is loaded (SMN reads are possible).
    pub fn is_amd(&self) -> (b: bool)
        ensures
            b == (*self == PawnIoModules::Loaded(ModuleKind::AmdFamily17)),
    {
        matches!(*self, PawnIoModules::Loaded(ModuleKind::AmdFamily17))
    }

    /// Whether the Intel module is loaded.
    pub fn is_intel(&self) -> (b: bool)
        ensures
            b == (*self == PawnIoModules::Loaded(ModuleKind::IntelMsr)),
    {
        matches!(*self, PawnIoModules::Loaded(ModuleKind::IntelMsr))
    }

    /// Whether a telemetry module is loaded.
    pub fn initialized(&self) -> (b: bool)
        ensures
            b == (*self is Loaded),
    {
        matches!(*self, PawnIoModules::Loaded(_))
    }
}

/// Loading from the start with the AMD load reporting `amd_ok` and, if asked
/// for, the Intel load reporting `intel_ok`: the AMD module is tried first;
/// the Intel module is tried only when the AMD one failed; at most one module
/// ends up loaded, the AMD one when both could, and the loading then stops.
pub proof fn lemma_module_loading(amd_ok: bool, intel_ok: bool)
    ensures
        ({
            let (s1, a1) = spec_begin_loading();
            let (s2, a2) = spec_module_step(s1, amd_ok);
            let (s3, a3) = spec_module_step(s2, intel_ok);
            &&& a1 == ModuleAction::Load(ModuleKind::AmdFamily17)
            &&& amd_ok ==> s2 == PawnIoModules::Loaded(ModuleKind::AmdFamily17) && a2
                == ModuleAction::Finish
            &&& !amd_ok ==> a2 == ModuleAction::Load(ModuleKind::IntelMsr) && a3
                == ModuleAction::Finish && s3 == if intel_ok {
                PawnIoModules::Loaded(ModuleKind::IntelMsr)
            } else {
                PawnIoModules::Unavailable
            }
        }),
{
}

/// Once loading has finished, further steps change nothing.
pub proof fn lemma_module_loading_is_final(s: PawnIoModules, loaded: bool)
    requires
        s is Loaded || s is Unavailable,
    ensures
        spec_module_step(s, loaded) == (s, ModuleAction::Finish),
{
}

/// The temperature of a register value, in terms of its bits: the reading is
/// the 11-bit field of bits 21..=31 (`raw / 2^21`) in eighths of a degree, less
/// 49 °C (392 eighths) when bit 19 is set or bits 16 and 17 both are; it is
/// shown rounded to the nearest degree (halves up) when it lies within
/// 1..=125 °C, and not at all otherwise.
pub proof fn lemma_decode_amd_temp_bits(raw: u32)
    ensures
        ({
            let offset = (raw / 0x8_0000) % 2 == 1 || (raw / 0x1_0000) % 4 == 3;
            let e = (raw / 0x20_0000) as int - (if offset {
                392int
            } else {
                0int
            });
            match spec_decode_amd_temp(raw) {
                Some(t) => 8 <= e <= 1000 && 8 * t - 4 <= e < 8 * t + 4,
                None => e < 8 || e > 1000,
            }
        }),
{
    assert((raw >> 21u32) & 0x7FF == raw / 0x20_0000) by (bit_vector);
    assert(((raw & 0x8_0000) != 0) == ((raw / 0x8_0000) % 2 == 1)) by (bit_vector);
    assert(((raw & 0x3_0000) == 0x3_0000) == ((raw / 0x1_0000) % 4 == 3)) by (bit_vector);
}

} // verus!
