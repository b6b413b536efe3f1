//! Reading the capability report the display sends back.
use vstd::prelude::*;

verus! {

/// Size of the buffer an input report is read into.
pub const INPUT_REPORT_BUF_LEN: usize = 64;

/// Shortest input report that carries the device information.
pub const MIN_INFO_REPORT_LEN: usize = 10;

/// Device capabilities and status received from device input reports.
#[derive(Debug, Clone, Copy, PartialEq, Eq, Structural)]
pub struct DeviceInfo {
    pub model_id: u8,
    pub capability_mask: u8,
    pub is_fahrenheit_capable: bool,
}

/// The information an input report carries: model id at byte 5, capability
/// mask at byte 8, Fahrenheit support when byte 9 is 1; none in a report
/// shorter than 10 bytes.
pub open spec fn spec_device_info(report: Seq<u8>) -> Option<DeviceInfo> {
    if report.len() >= MIN_INFO_REPORT_LEN {
        Some(
            DeviceInfo {
                model_id: report[5],
                capability_mask: report[8],
                is_fahrenheit_capable: report[9] == 1,
            },
        )
    } else {
        None
    }
}

/// Decodes the bytes of an input report (as many as were read).
pub fn parse_device_info(report: &[u8]) -> (info: Option<DeviceInfo>)
    ensures
        info == spec_device_info(report@),
{
    if report.len() >= MIN_INFO_REPORT_LEN {
        Some(
            DeviceInfo {
                model_id: report[5],
                capability_mask: report[8],
                is_fahrenheit_capable: report[9] == 1,
            },
        )
    } else {
        None
    }
}

} // verus!
