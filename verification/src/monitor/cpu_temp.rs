//! CPU temperature: hwmon sensor selection and millidegree readings.
use crate::text::{
    chars_of, contains, contains_str, lowercase, lowercase_chars, parse_signed, parse_signed_chars,
    trim, trim_chars,
};
use vstd::prelude::*;

verus! {

/// Whole degrees Celsius shown for a millidegree reading: truncated, and kept
/// within 0..=255.
pub open spec fn spec_millidegrees_to_celsius(milli_c: i32) -> u8 {
    if milli_c < 0 {
        0
    } else if milli_c / 1000 > 255 {
        255
    } else {
        (milli_c / 1000) as u8
    }
}

/// Whole degrees Celsius shown for a millidegree reading.
pub fn millidegrees_to_celsius(milli_c: i32) -> (t: u8)
    ensures
        t == spec_millidegrees_to_celsius(milli_c),
{
    if milli_c < 0 {
        0
    } else if milli_c / 1000 > 255 {
        255
    } else {
        (milli_c / 1000) as u8
    }
}

/// The temperature a hwmon `temp*_input` file gives: its trimmed text read as
/// an `i32` of millidegrees Celsius; `None` when it is no such number.
pub open spec fn spec_temp_from_input(content: Seq<char>) -> Option<u8> {
    match parse_signed(trim(content), 10, i32::MIN as int, i32::MAX as int) {
        Some(m) => Some(spec_millidegrees_to_celsius(m as i32)),
        None => None,
    }
}

/// Reads the contents of a hwmon `temp*_input` file.
pub fn temp_from_input(content: &str) -> (t: Option<u8>)
    ensures
        t == spec_temp_from_input(content@),
{
    let v = chars_of(content);
    let t = trim_chars(&v, 0, v.len());
    assert(v@.subrange(0, v.len() as int) =~= v@);
    match parse_signed_chars(&t, 0, t.len(), 10, i32::MIN as i64, i32::MAX as i64) {
        Some(m) => {
            assert(t@.subrange(0, t.len() as int) =~= t@);
            Some(millidegrees_to_celsius(m as i32))
        },
        None => {
            assert(t@.subrange(0, t.len() as int) =~= t@);
            None
        },
    }
}

/// `lowercase(trim(s))`, computed.
fn trimmed_lowercase(s: &str) -> (r: Vec<char>)
    ensures
        r@ == lowercase(trim(s@)),
{
    let v = chars_of(s);
    assert(v@.subrange(0, v.len() as int) =~= v@);
    let t = trim_chars(&v, 0, v.len());
    assert(t@.subrange(0, t.len() as int) =~= t@);
    lowercase_chars(&t, 0, t.len())
}

/// Whether a lowercased hwmon driver name mentions a CPU temperature driver:
/// k10temp, coretemp, zenpower or cpu_thermal.
pub open spec fn spec_names_cpu_driver(lower: Seq<char>) -> bool {
    contains(lower, "k10temp"@) || contains(lower, "coretemp"@) || contains(lower, "zenpower"@)
        || contains(lower, "cpu_thermal"@)
}

/// Whether a lowercased hwmon driver name mentions a CPU temperature driver.
pub fn names_cpu_driver(lower: &Vec<char>) -> (b: bool)
    ensures
        b == spec_names_cpu_driver(lower@),
{
    contains_str(lower, "k10temp") || contains_str(lower, "coretemp") || contains_str(
        lower,
        "zenpower",
    ) || contains_str(lower, "cpu_thermal")
}

/// Whether a hwmon driver name belongs to a CPU temperature driver: its
/// trimmed, lowercased text mentions one.
pub open spec fn spec_is_cpu_hwmon_name(name: Seq<char>) -> bool {
    spec_names_cpu_driver(lowercase(trim(name)))
}

/// Whether a hwmon driver name belongs to a CPU temperature driver.
pub fn is_cpu_hwmon_name(name: &str) -> (b: bool)
    ensures
        b == spec_is_cpu_hwmon_name(name@),
{
    names_cpu_driver(&trimmed_lowercase(name))
}

/// Whether a lowercased label mentions the package or control temperature:
/// tctl, tdie or package.
pub open spec fn spec_names_package_temp(lower: Seq<char>) -> bool {
    contains(lower, "tctl"@) || contains(lower, "tdie"@) || contains(lower, "package"@)
}

/// Whether a lowercased label mentions the package or control temperature.
pub fn names_package_temp(lower: &Vec<char>) -> (b: bool)
    ensures
        b == spec_names_package_temp(lower@),
{
    contains_str(lower, "tctl") || contains_str(lower, "tdie") || contains_str(lower, "package")
}

/// Whether a `temp*_label` names the package or control temperature: its
/// trimmed, lowercased text mentions it.
pub open spec fn spec_is_preferred_temp_label(label: Seq<char>) -> bool {
    spec_names_package_temp(lowercase(trim(label)))
}

/// Whether a `temp*_label` names the package or control temperature.
pub fn is_preferred_temp_label(label: &str) -> (b: bool)
    ensures
        b == spec_is_preferred_temp_label(label@),
{
    names_package_temp(&trimmed_lowercase(label))
}

/// Whether the existing input `temp{index}_input` of a CPU hwmon driver is the
/// one to read: its label names the package or control temperature, or, with
/// no such label, it is the first input.
pub open spec fn spec_chooses_temp_input(index: u8, label: Option<Seq<char>>) -> bool {
    (label matches Some(l) && spec_is_preferred_temp_label(l)) || index == 1
}

/// Whether the existing input `temp{index}_input` of a CPU hwmon driver is the
/// one to read; `label` is the text of its `temp{index}_label`, when readable.
pub fn chooses_temp_input(index: u8, label: Option<&str>) -> (b: bool)
    ensures
        b == spec_chooses_temp_input(
            index,
            match label {
                Some(l) => Some(l@),
                None => None,
            },
        ),
{
    let preferred = match label {
        Some(l) => is_preferred_temp_label(l),
        None => false,
    };
    preferred || index == 1
}

/// Whether a lowercased sensor label mentions the CPU: cpu, tctl, tdie,
/// package or core.
pub open spec fn spec_names_cpu_sensor(lower: Seq<char>) -> bool {
    contains(lower, "cpu"@) || contains(lower, "tctl"@) || contains(lower, "tdie"@) || contains(
        lower,
        "package"@,
    ) || contains(lower, "core"@)
}

/// Whether a lowercased sensor label mentions the CPU.
pub fn names_cpu_sensor(lower: &Vec<char>) -> (b: bool)
    ensures
        b == spec_names_cpu_sensor(lower@),
{
    contains_str(lower, "cpu") || contains_str(lower, "tctl") || contains_str(lower, "tdie")
        || contains_str(lower, "package") || contains_str(lower, "core")
}

/// Whether a sensor component's label belongs to the CPU: lowercased, it
/// mentions it.
pub open spec fn spec_is_cpu_sensor_label(label: Seq<char>) -> bool {
    spec_names_cpu_sensor(lowercase(label))
}

/// Whether a sensor component's label belongs to the CPU.
pub fn is_cpu_sensor_label(label: &str) -> (b: bool)
    ensures
        b == spec_is_cpu_sensor_label(label@),
{
    let v = chars_of(label);
    assert(v@.subrange(0, v.len() as int) =~= v@);
    names_cpu_sensor(&lowercase_chars(&v, 0, v.len()))
}

/// What was seen of one `temp{i}_input` of a hwmon device directory.
pub struct TempInputProbe {
    /// Whether `temp{i}_input` exists.
    pub exists: bool,
    /// The text of `temp{i}_label`, when the input exists and the label reads.
    pub label: Option<String>,
}

/// What was read of one hwmon device directory: the text of its `name` file,
/// when it reads, and the probes of its inputs, `inputs[k]` standing for
/// `temp{k + 1}_input`.
pub struct HwmonDevice {
    pub name: Option<String>,
    pub inputs: Vec<TempInputProbe>,
}

/// The label of a probe, as characters.
pub open spec fn probe_label(p: TempInputProbe) -> Option<Seq<char>> {
    match p.label {
        Some(l) => Some(l@),
        None => None,
    }
}

/// Whether a device's `name` belongs to a CPU temperature driver.
pub open spec fn device_is_cpu(dev: HwmonDevice) -> bool {
    dev.name matches Some(n) && spec_is_cpu_hwmon_name(n@)
}

/// Whether `temp{i}_input` of device `d` is a CPU temperature input to read:
/// the device is a CPU driver, `1 <= i <= 8`, the input exists, and its label
/// names the package temperature or it is the first input.
pub open spec fn temp_input_qualifies(devs: Seq<HwmonDevice>, d: int, i: int) -> bool {
    &&& 0 <= d < devs.len()
    &&& device_is_cpu(devs[d])
    &&& 1 <= i <= 8
    &&& i <= devs[d].inputs.len()
    &&& devs[d].inputs[i - 1].exists
    &&& spec_chooses_temp_input(i as u8, probe_label(devs[d].inputs[i - 1]))
}

/// The hwmon input to read the CPU temperature from, as (device, input index):
/// the first device, in the order given, with a qualifying input, and in it the
/// lowest qualifying index; `None` when no input qualifies.
pub fn find_hwmon_cpu_temp(devs: &Vec<HwmonDevice>) -> (r: Option<(usize, u8)>)
    ensures
        match r {
            Some((d, i)) => {
                &&& temp_input_qualifies(devs@, d as int, i as int)
                &&& forall|d2: int, i2: int|
                    #![trigger temp_input_qualifies(devs@, d2, i2)]
                    (d2 < d || (d2 == d && i2 < i)) ==> !temp_input_qualifies(devs@, d2, i2)
            },
            None => forall|d2: int, i2: int| !temp_input_qualifies(devs@, d2, i2),
        },
{
    let mut d: usize = 0;
    while d < devs.len()
        invariant
            d <= devs.len(),
            forall|d2: int, i2: int|
                #![trigger temp_input_qualifies(devs@, d2, i2)]
                d2 < d ==> !temp_input_qualifies(devs@, d2, i2),
        decreases devs.len() - d,
    {
        let dev = &devs[d];
        let is_cpu = match &dev.name {
            Some(n) => is_cpu_hwmon_name(n.as_str()),
            None => false,
        };
        if is_cpu {
            let mut i: u8 = 1;
            while i <= 8 && (i as usize) <= dev.inputs.len()
                invariant
                    1 <= i <= 9,
                    d < devs.len(),
                    dev == devs@[d as int],
                    device_is_cpu(devs@[d as int]),
                    forall|d2: int, i2: int|
                        #![trigger temp_input_qualifies(devs@, d2, i2)]
                        d2 < d ==> !temp_input_qualifies(devs@, d2, i2),
                    forall|i2: int|
                        #![trigger temp_input_qualifies(devs@, d as int, i2)]
                        i2 < i ==> !temp_input_qualifies(devs@, d as int, i2),
                decreases 9 - i,
            {
                let probe = &dev.inputs[(i - 1) as usize];
                if probe.exists {
                    let label = match &probe.label {
                        Some(l) => Some(l.as_str()),
                        None => None,
                    };
                    if chooses_temp_input(i, label) {
                        return Some((d, i));
                    }
                }
                i = i + 1;
            }
        }
        d = d + 1;
    }
    None
}

} // verus!
