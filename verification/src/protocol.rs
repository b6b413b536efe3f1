//! The 34-byte HID output report understood by the Segotep display MCU.
use vstd::prelude::*;

verus! {

/// USB vendor id of the display controller.
pub const VENDOR_ID: u16 = 0x1a86;

/// USB product id of the display controller.
pub const PRODUCT_ID: u16 = 0xa001;

/// Model id of the Ice Moon 360 series.
pub const DEFAULT_MODEL_ID_ICE_MOON: u8 = 3;

/// Model id the command line uses when none is given (the Ice Moon 360).
pub const DEFAULT_FALLBACK_MODEL_ID: u8 = 3;

/// Length of the HID output report.
pub const REPORT_LEN: usize = 34;

/// Telemetry and display payload sent to the Segotep AIO block.
#[derive(Debug, Clone, PartialEq, Eq, Structural)]
pub struct SegotepPacket {
    /// Model identifier (e.g. 3 for Ice Moon)
    pub model_id: u8,
    /// Whether the 7-segment display is powered on
    pub screen_on: bool,
    /// CPU temperature (0-255)
    pub cpu_temp: u8,
    /// CPU load percentage (0-100)
    pub cpu_load: u8,
    /// CPU power in watts
    pub cpu_power_watts: u16,
    /// CPU frequency in MHz
    pub cpu_clock_mhz: u16,
    /// GPU temperature (0-255)
    pub gpu_temp: u8,
    /// GPU load percentage (0-100)
    pub gpu_load: u8,
    /// GPU power in watts
    pub gpu_power_watts: u16,
    /// GPU frequency in MHz
    pub gpu_clock_mhz: u16,
    /// Temperature unit shown: false = Celsius, true = Fahrenheit
    pub is_fahrenheit: bool,
}

/// Low byte of a little-endian `u16`.
pub open spec fn lo_byte(v: u16) -> u8 {
    (v % 256) as u8
}

/// High byte of a little-endian `u16`.
pub open spec fn hi_byte(v: u16) -> u8 {
    (v / 256) as u8
}

/// Byte 3 of the report: 0x00 keeps the screen on, 0x0E powers it down.
pub open spec fn state_byte(p: SegotepPacket) -> u8 {
    if p.screen_on { 0x00 } else { 0x0E }
}

/// Byte 4 of the report: the model id, overridden by 0x0F when the screen is off.
pub open spec fn model_byte(p: SegotepPacket) -> u8 {
    if p.screen_on { p.model_id } else { 0x0F }
}

/// Byte 33 of the report: the temperature unit flag.
pub open spec fn unit_byte(p: SegotepPacket) -> u8 {
    if p.is_fahrenheit { 1 } else { 0 }
}

/// The report that encodes `p`, byte by byte.
pub open spec fn report_bytes(p: SegotepPacket) -> Seq<u8> {
    seq![
        0x00u8, 0xDCu8, 0xDDu8, state_byte(p), model_byte(p),
        0u8, 0u8, 0u8, 0u8, 0u8, 0u8, 0u8, 0u8,
        0x01u8, 0u8, 0u8, 0u8, 0x0Cu8, 0u8, 0u8, 0u8,
        p.cpu_temp, p.cpu_load,
        lo_byte(p.cpu_power_watts), hi_byte(p.cpu_power_watts),
        lo_byte(p.cpu_clock_mhz), hi_byte(p.cpu_clock_mhz),
        p.gpu_temp, p.gpu_load,
        lo_byte(p.gpu_power_watts), hi_byte(p.gpu_power_watts),
        lo_byte(p.gpu_clock_mhz), hi_byte(p.gpu_clock_mhz),
        unit_byte(p),
    ]
}

/// The value of a little-endian `u16` stored as `(lo, hi)`.
pub open spec fn le_u16(lo: u8, hi: u8) -> int {
    lo + 256 * hi
}

fn low_byte(v: u16) -> (b: u8)
    ensures
        b == lo_byte(v),
{
    assert((v & 0xFF) == v % 256) by (bit_vector);
    (v & 0xFF) as u8
}

fn high_byte(v: u16) -> (b: u8)
    ensures
        b == hi_byte(v),
{
    assert(((v >> 8) & 0xFF) == v / 256) by (bit_vector);
    ((v >> 8) & 0xFF) as u8
}

impl Default for SegotepPacket {
    fn default() -> (p: Self)
        ensures
            p.model_id == DEFAULT_MODEL_ID_ICE_MOON,
            p.screen_on,
            p.cpu_temp == 0,
            p.cpu_load == 0,
            p.cpu_power_watts == 0,
            p.cpu_clock_mhz == 0,
            p.gpu_temp == 0,
            p.gpu_load == 0,
            p.gpu_power_watts == 0,
            p.gpu_clock_mhz == 0,
            !p.is_fahrenheit,
    {
        SegotepPacket {
            model_id: DEFAULT_MODEL_ID_ICE_MOON,
            screen_on: true,
            cpu_temp: 0,
            cpu_load: 0,
            cpu_power_watts: 0,
            cpu_clock_mhz: 0,
            gpu_temp: 0,
            gpu_load: 0,
            gpu_power_watts: 0,
            gpu_clock_mhz: 0,
            is_fahrenheit: false,
        }
    }
}

impl SegotepPacket {
    /// Serializes the packet into the exact 34-byte HID report expected by the device.
    pub fn serialize(&self) -> (buf: [u8; 34])
        ensures
            buf@ == report_bytes(*self),
    {
        let state: u8 = if self.screen_on { 0x00 } else { 14 };
        let model: u8 = if self.screen_on { self.model_id } else { 15 };
        let unit: u8 = if self.is_fahrenheit { 1 } else { 0 };
        let buf: [u8; 34] = [
            0x00, 0xDC, 0xDD, state, model,
            0, 0, 0, 0, 0, 0, 0, 0,
            0x01, 0, 0, 0, 0x0C, 0, 0, 0,
            self.cpu_temp, self.cpu_load,
            low_byte(self.cpu_power_watts), high_byte(self.cpu_power_watts),
            low_byte(self.cpu_clock_mhz), high_byte(self.cpu_clock_mhz),
            self.gpu_temp, self.gpu_load,
            low_byte(self.gpu_power_watts), high_byte(self.gpu_power_watts),
            low_byte(self.gpu_clock_mhz), high_byte(self.gpu_clock_mhz),
            unit,
        ];
        assert(buf@ =~= report_bytes(*self));
        buf
    }
}

/// A little-endian pair of bytes gives back the `u16` it was cut from.
pub proof fn lemma_le_u16_roundtrip(v: u16)
    ensures
        le_u16(lo_byte(v), hi_byte(v)) == v,
{
}

/// Every report is 34 bytes long, starts with report id 0x00 and the magic
/// header 0xDC 0xDD, carries the protocol markers 0x01 at byte 13 and 0x0C at
/// byte 17, and holds zeros in the reserved bytes 5..=12, 14..=16 and 18..=20.
pub proof fn lemma_report_framing(p: SegotepPacket)
    ensures
        report_bytes(p).len() == REPORT_LEN,
        report_bytes(p)[0] == 0x00,
        report_bytes(p)[1] == 0xDC,
        report_bytes(p)[2] == 0xDD,
        report_bytes(p)[13] == 0x01,
        report_bytes(p)[17] == 0x0C,
        forall|i: int|
            (5 <= i <= 12 || 14 <= i <= 16 || 18 <= i <= 20) ==> #[trigger] report_bytes(p)[i]
                == 0,
{
}

/// Every telemetry field, and the unit flag, can be read back from its place in
/// the report: the temperatures and loads as single bytes, the powers and clocks
/// as little-endian `u16`s.
pub proof fn lemma_report_fields(p: SegotepPacket)
    ensures
        report_bytes(p)[21] == p.cpu_temp,
        report_bytes(p)[22] == p.cpu_load,
        le_u16(report_bytes(p)[23], report_bytes(p)[24]) == p.cpu_power_watts,
        le_u16(report_bytes(p)[25], report_bytes(p)[26]) == p.cpu_clock_mhz,
        report_bytes(p)[27] == p.gpu_temp,
        report_bytes(p)[28] == p.gpu_load,
        le_u16(report_bytes(p)[29], report_bytes(p)[30]) == p.gpu_power_watts,
        le_u16(report_bytes(p)[31], report_bytes(p)[32]) == p.gpu_clock_mhz,
        report_bytes(p)[33] == (if p.is_fahrenheit { 1u8 } else { 0u8 }),
{
    lemma_le_u16_roundtrip(p.cpu_power_watts);
    lemma_le_u16_roundtrip(p.cpu_clock_mhz);
    lemma_le_u16_roundtrip(p.gpu_power_watts);
    lemma_le_u16_roundtrip(p.gpu_clock_mhz);
}

/// A powered-on report carries state 0x00 and the model id in bytes 3 and 4; a
/// powered-off report carries 0x0E and 0x0F there, whatever the model id.
pub proof fn lemma_report_screen_state(p: SegotepPacket)
    ensures
        p.screen_on ==> report_bytes(p)[3] == 0x00 && report_bytes(p)[4] == p.model_id,
        !p.screen_on ==> report_bytes(p)[3] == 0x0E && report_bytes(p)[4] == 0x0F,
{
}

/// Two powered-off packets that differ only in their model id give the same report.
pub proof fn lemma_screen_off_ignores_model(p: SegotepPacket, q: SegotepPacket)
    requires
        !p.screen_on,
        q == (SegotepPacket { model_id: q.model_id, ..p }),
    ensures
        report_bytes(p) == report_bytes(q),
{
    assert(report_bytes(p) =~= report_bytes(q));
}

/// A powered-on report determines its packet: two powered-on packets with the
/// same report are equal.
pub proof fn lemma_report_determines_packet(p: SegotepPacket, q: SegotepPacket)
    requires
        p.screen_on,
        q.screen_on,
        report_bytes(p) == report_bytes(q),
    ensures
        p == q,
{
    lemma_report_fields(p);
    lemma_report_fields(q);
    assert(report_bytes(p)[4] == report_bytes(q)[4]);
    assert(report_bytes(p)[21] == report_bytes(q)[21]);
    assert(report_bytes(p)[22] == report_bytes(q)[22]);
    assert(report_bytes(p)[23] == report_bytes(q)[23]);
    assert(report_bytes(p)[24] == report_bytes(q)[24]);
    assert(report_bytes(p)[25] == report_bytes(q)[25]);
    assert(report_bytes(p)[26] == report_bytes(q)[26]);
    assert(report_bytes(p)[27] == report_bytes(q)[27]);
    assert(report_bytes(p)[28] == report_bytes(q)[28]);
    assert(report_bytes(p)[29] == report_bytes(q)[29]);
    assert(report_bytes(p)[30] == report_bytes(q)[30]);
    assert(report_bytes(p)[31] == report_bytes(q)[31]);
    assert(report_bytes(p)[32] == report_bytes(q)[32]);
    assert(report_bytes(p)[33] == report_bytes(q)[33]);
}

} // verus!
