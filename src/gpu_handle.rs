//! Handle on a GPU
pub mod fan_control;
pub mod overdrive;
pub mod power_levels;
pub mod power_profile_mode;

pub use power_levels::{PowerLevelKind, PowerLevels};

use crate::error::{parse_error_at, Error, ErrorKind};
use crate::hw_mon::HwMon;
use crate::sysfs::{read_text, read_unsigned, read_value, split_once, split_once_char, SysFS};
use crate::text::{clean, clean_line, eq_str, lines, split_lines, to_chars, to_string};
use fan_control::{FanCtrlContents, FanCurve, FanInfo};
use overdrive::ClocksTableGen;
use power_profile_mode::PowerProfileModesTable;
use vstd::prelude::*;

verus! {

/// A handle over a single GPU device, as exposed in the Linux SysFS.
pub struct GpuHandle<F: SysFS> {
    sysfs: F,
    pcie_port: F,
    /// The hardware monitors bound to this GPU. They expose real-time data.
    pub hw_monitors: Vec<HwMon<F>>,
    uevent: Vec<(String, String)>,
}

/// Reads `uevent`: one `KEY=VALUE` line each, split at the first `=`. The text is read
/// without its NUL characters and surrounding whitespace.
pub fn parse_uevent(raw: &str) -> (r: Result<Vec<(String, String)>, Error>)
    ensures
        ({
            let ls = lines(clean_line(raw@));
            match r {
                Ok(entries) => entries@.len() == ls.len() && forall|k: int|
                    0 <= k < ls.len() ==> split_once(#[trigger] ls[k], '=') == Some(
                        (entries@[k].0@, entries@[k].1@),
                    ),
                Err(e) => e.kind is ParseError && exists|k: int|
                    0 <= k < ls.len() && split_once(#[trigger] ls[k], '=') is None,
            }
        }),
{
    let v = clean(to_chars(raw).as_slice());
    let ls = split_lines(v.as_slice());
    let ghost lv = lines(clean_line(raw@));
    let mut out: Vec<(String, String)> = Vec::new();
    let mut k: usize = 0;
    while k < ls.len()
        invariant
            lv == lines(clean_line(raw@)),
            ls@.len() == lv.len(),
            forall|j: int| 0 <= j < ls@.len() ==> #[trigger] ls@[j]@ == lv[j],
            k <= ls@.len(),
            out@.len() == k,
            forall|j: int|
                0 <= j < k ==> split_once(#[trigger] lv[j], '=') == Some((out@[j].0@, out@[j].1@)),
        decreases ls@.len() - k,
    {
        assert(ls@[k as int]@ == lv[k as int]);
        match split_once_char(ls[k].as_slice(), '=') {
            Some((key, value)) => {
                out.push((to_string(key.as_slice()), to_string(value.as_slice())));
            },
            None => {
                return Err(Error::unexpected_eol("=", k));
            },
        }
        k += 1;
    }
    Ok(out)
}

/// The value of the last `uevent` entry under `key`.
pub open spec fn uevent_value(entries: Seq<(String, String)>, key: Seq<char>) -> Option<Seq<char>>
    decreases entries.len(),
{
    if entries.len() == 0 {
        None
    } else if entries.last().0@ == key {
        Some(entries.last().1@)
    } else {
        uevent_value(entries.drop_last(), key)
    }
}

fn lookup<'a>(entries: &'a Vec<(String, String)>, key: &str) -> (r: Option<&'a str>)
    ensures
        match r {
            Some(v) => uevent_value(entries@, key@) == Some(v@),
            None => uevent_value(entries@, key@) is None,
        },
{
    let mut k: usize = entries.len();
    assert(entries@.subrange(0, k as int) =~= entries@);
    while k > 0
        invariant
            k <= entries@.len(),
            uevent_value(entries@, key@) == uevent_value(entries@.subrange(0, k as int), key@),
        decreases k,
    {
        let entry = &entries[k - 1];
        assert(entries@.subrange(0, k as int).drop_last() =~= entries@.subrange(0, k - 1));
        if eq_str(to_chars(entry.0.as_str()).as_slice(), key) {
            return Some(entry.1.as_str());
        }
        k -= 1;
    }
    None
}

fn split_at_colon(v: &str) -> (r: Option<(&str, &str)>)
    ensures
        match split_once(v@, ':') {
            Some((a, b)) => r matches Some((x, y)) && x@ == a && y@ == b,
            None => r is None,
        },
{
    let chars = to_chars(v);
    let mut i: usize = 0;
    while i < chars.len()
        invariant
            chars@ == v@,
            i <= chars@.len(),
            forall|j: int| 0 <= j < i ==> v@[j] != ':',
        decreases chars@.len() - i,
    {
        if chars[i] == ':' {
            proof {
                crate::sysfs::lemma_index_of_run(v@, ':', 0, i as int);
            }
            let a = v.substring_char(0, i);
            let b = v.substring_char(i + 1, chars.len());
            return Some((a, b));
        }
        i += 1;
    }
    proof {
        crate::sysfs::lemma_index_of_run(v@, ':', 0, i as int);
    }
    None
}

/// The uevent value under `key`, split at its first `:`.
pub open spec fn id_pair(entries: Seq<(String, String)>, key: Seq<char>) -> Option<(Seq<char>, Seq<char>)> {
    match uevent_value(entries, key) {
        Some(v) => split_once(v, ':'),
        None => None,
    }
}

/// Performance level to be used by the GPU.
#[derive(Debug, Clone, Copy, PartialEq, Eq, Structural)]
pub enum PerformanceLevel {
    /// The driver selects the power profile dynamically.
    Auto,
    /// The clocks are forced to the lowest power state.
    Low,
    /// The clocks are forced to the highest power state.
    High,
    /// Power states are adjusted by hand through `pp_dpm_*` and `pp_od_clk_voltage`.
    Manual,
}

impl PerformanceLevel {
    /// Reads a performance level as the driver writes it.
    pub fn from_str(s: &str) -> (r: Result<Self, Error>)
        ensures
            match r {
                Ok(l) => performance_level_of(s@) == Some(l),
                Err(e) => performance_level_of(s@) is None && parse_error_at(e, 1),
            },
    {
        let c = to_chars(s);
        if eq_str(c.as_slice(), "auto") || eq_str(c.as_slice(), "Automatic") {
            Ok(PerformanceLevel::Auto)
        } else if eq_str(c.as_slice(), "high") || eq_str(c.as_slice(), "Highest Clocks") {
            Ok(PerformanceLevel::High)
        } else if eq_str(c.as_slice(), "low") || eq_str(c.as_slice(), "Lowest Clocks") {
            Ok(PerformanceLevel::Low)
        } else if eq_str(c.as_slice(), "manual") || eq_str(c.as_slice(), "Manual") {
            Ok(PerformanceLevel::Manual)
        } else {
            Err(Error::parse_error("unrecognized GPU power profile", 1))
        }
    }

    /// The level as the driver expects it written.
    pub fn as_str(&self) -> (r: &'static str)
        ensures
            r@ == performance_level_text(*self),
    {
        match self {
            PerformanceLevel::Auto => "auto",
            PerformanceLevel::High => "high",
            PerformanceLevel::Low => "low",
            PerformanceLevel::Manual => "manual",
        }
    }
}

/// How a level is written to the driver.
pub open spec fn performance_level_text(l: PerformanceLevel) -> Seq<char> {
    match l {
        PerformanceLevel::Auto => "auto"@,
        PerformanceLevel::High => "high"@,
        PerformanceLevel::Low => "low"@,
        PerformanceLevel::Manual => "manual"@,
    }
}

impl Default for PerformanceLevel {
    fn default() -> (r: Self)
        ensures
            r == PerformanceLevel::Auto,
    {
        PerformanceLevel::Auto
    }
}

/// The level that a driver text names.
pub open spec fn performance_level_of(s: Seq<char>) -> Option<PerformanceLevel> {
    if s == "auto"@ || s == "Automatic"@ {
        Some(PerformanceLevel::Auto)
    } else if s == "high"@ || s == "Highest Clocks"@ {
        Some(PerformanceLevel::High)
    } else if s == "low"@ || s == "Lowest Clocks"@ {
        Some(PerformanceLevel::Low)
    } else if s == "manual"@ || s == "Manual"@ {
        Some(PerformanceLevel::Manual)
    } else {
        None
    }
}

/// A pending write to a file that only takes effect once committed.
#[derive(Debug)]
pub struct CommitHandle {
    file: String,
}

impl CommitHandle {
    /// A handle on the given file of the device directory.
    pub fn new(file: &str) -> (r: Self)
        ensures
            r.file_name()@ == file@,
    {
        CommitHandle { file: to_string(to_chars(file).as_slice()) }
    }

    /// The file that the commit goes to.
    pub closed spec fn file_name(&self) -> String {
        self.file
    }

    /// Commits the previously written values by writing `c`.
    pub fn commit<F: SysFS>(self, sysfs: &F) -> (r: Result<(), Error>) {
        sysfs.write_file(self.file.as_str(), "c\n")
    }
}

/// Each level followed by a space.
pub open spec fn levels_text(levels: Seq<u8>) -> Seq<char>
    decreases levels.len(),
{
    if levels.len() == 0 {
        Seq::empty()
    } else {
        levels_text(levels.drop_last()) + crate::text::int_text(levels.last() as int) + seq![' ']
    }
}

/// The command that enables the given power levels; levels are single digits.
pub fn enabled_levels_command(levels: &[u8]) -> (r: Result<String, Error>)
    ensures
        r is Ok <==> forall|k: int| 0 <= k < levels@.len() ==> #[trigger] levels@[k] < 10,
        r matches Ok(s) ==> s@ == levels_text(levels@),
        r matches Err(e) ==> crate::error::is_not_allowed(e),
{
    let mut s: Vec<char> = Vec::new();
    let mut k: usize = 0;
    assert(levels@.subrange(0, 0) =~= Seq::<u8>::empty());
    while k < levels.len()
        invariant
            k <= levels@.len(),
            forall|j: int| 0 <= j < k ==> #[trigger] levels@[j] < 10,
            s@ == levels_text(levels@.subrange(0, k as int)),
        decreases levels@.len() - k,
    {
        let l = levels[k];
        if l >= 10 {
            return Err(Error::not_allowed(to_string(to_chars("Power level index is not a single digit").as_slice())));
        }
        assert(levels@.subrange(0, k + 1).drop_last() =~= levels@.subrange(0, k as int));
        crate::text::push_u64(&mut s, l as u64);
        s.push(' ');
        k += 1;
    }
    assert(levels@.subrange(0, k as int) =~= levels@);
    Ok(to_string(s.as_slice()))
}

/// The command that enables the given power levels when the performance level allows it:
/// only a `manual` level does.
pub fn enabled_levels_for(level: PerformanceLevel, levels: &[u8]) -> (r: Result<String, Error>)
    ensures
        r is Ok <==> level == PerformanceLevel::Manual && forall|k: int|
            0 <= k < levels@.len() ==> #[trigger] levels@[k] < 10,
        r matches Ok(s) ==> s@ == levels_text(levels@),
        r matches Err(e) ==> crate::error::is_not_allowed(e),
{
    match level {
        PerformanceLevel::Manual => enabled_levels_command(levels),
        _ => Err(Error::not_allowed(to_string(
            to_chars("power_force_performance level needs to be set to 'manual' to adjust power levels").as_slice(),
        ))),
    }
}

impl<F: SysFS> GpuHandle<F> {
    /// The `uevent` entries of the device, in file order.
    pub closed spec fn uevent_entries(&self) -> Seq<(String, String)> {
        self.uevent@
    }

    /// Creates a handle from the device directory, the directory of its PCIe port and its
    /// hardware monitors. The device's `uevent` must name a driver.
    pub fn new(sysfs: F, pcie_port: F, hw_monitors: Vec<HwMon<F>>) -> (r: Result<Self, Error>)
        ensures
            r matches Ok(h) ==> uevent_value(h.uevent_entries(), "DRIVER"@) is Some,
    {
        let raw = sysfs.read_file("uevent")?;
        let uevent = parse_uevent(raw.as_str())?;
        match lookup(&uevent, "DRIVER") {
            Some(_) => Ok(GpuHandle { sysfs, pcie_port, hw_monitors, uevent }),
            None => Err(Error::from_kind(ErrorKind::InvalidSysFS)),
        }
    }

    /// The directory of the device.
    pub fn sysfs(&self) -> &F {
        &self.sysfs
    }

    /// Gets the kernel driver used.
    pub fn get_driver(&self) -> (r: &str)
        ensures
            uevent_value(self.uevent_entries(), "DRIVER"@) matches Some(d) ==> r@ == d,
    {
        match lookup(&self.uevent, "DRIVER") {
            Some(d) => d,
            None => "",
        }
    }

    /// Gets the GPU's PCI vendor and device ID.
    pub fn get_pci_id(&self) -> (r: Option<(&str, &str)>)
        ensures
            match id_pair(self.uevent_entries(), "PCI_ID"@) {
                Some((a, b)) => r matches Some((x, y)) && x@ == a && y@ == b,
                None => r is None,
            },
    {
        match lookup(&self.uevent, "PCI_ID") {
            Some(v) => split_at_colon(v),
            None => None,
        }
    }

    /// Gets the card's PCI subsystem vendor and device ID.
    pub fn get_pci_subsys_id(&self) -> (r: Option<(&str, &str)>)
        ensures
            match id_pair(self.uevent_entries(), "PCI_SUBSYS_ID"@) {
                Some((a, b)) => r matches Some((x, y)) && x@ == a && y@ == b,
                None => r is None,
            },
    {
        match lookup(&self.uevent, "PCI_SUBSYS_ID") {
            Some(v) => split_at_colon(v),
            None => None,
        }
    }

    /// Gets the PCI slot name of the card.
    pub fn get_pci_slot_name(&self) -> (r: Option<&str>)
        ensures
            match r {
                Some(v) => uevent_value(self.uevent_entries(), "PCI_SLOT_NAME"@) == Some(v@),
                None => uevent_value(self.uevent_entries(), "PCI_SLOT_NAME"@) is None,
            },
    {
        lookup(&self.uevent, "PCI_SLOT_NAME")
    }

    /// Gets the current PCIe link speed.
    pub fn get_current_link_speed(&self) -> (r: Result<String, Error>) {
        read_text(&self.pcie_port, "current_link_speed")
    }

    /// Gets the current PCIe link width.
    pub fn get_current_link_width(&self) -> (r: Result<String, Error>) {
        read_text(&self.pcie_port, "current_link_width")
    }

    /// Gets the maximum possible PCIe link speed.
    pub fn get_max_link_speed(&self) -> (r: Result<String, Error>) {
        read_text(&self.pcie_port, "max_link_speed")
    }

    /// Gets the maximum possible PCIe link width.
    pub fn get_max_link_width(&self) -> (r: Result<String, Error>) {
        read_text(&self.pcie_port, "max_link_width")
    }

    /// Gets total VRAM size in bytes. May not be reported on some devices, such as integrated GPUs.
    pub fn get_total_vram(&self) -> (r: Result<u64, Error>) {
        read_unsigned(&self.sysfs, "mem_info_vram_total", u64::MAX)
    }

    /// Gets how much VRAM is currently used, in bytes.
    pub fn get_used_vram(&self) -> (r: Result<u64, Error>) {
        read_unsigned(&self.sysfs, "mem_info_vram_used", u64::MAX)
    }

    /// Returns the GPU busy percentage.
    pub fn get_busy_percent(&self) -> (r: Result<u8, Error>) {
        let v = read_unsigned(&self.sysfs, "gpu_busy_percent", u8::MAX as u64)?;
        Ok(v as u8)
    }

    /// Returns the GPU VBIOS version.
    pub fn get_vbios_version(&self) -> (r: Result<String, Error>) {
        read_text(&self.sysfs, "vbios_version")
    }

    /// Returns the currently forced performance level.
    pub fn get_power_force_performance_level(&self) -> (r: Result<PerformanceLevel, Error>) {
        let v = read_text(&self.sysfs, "power_dpm_force_performance_level")?;
        PerformanceLevel::from_str(v.as_str())
    }

    /// Forces a given performance level.
    pub fn set_power_force_performance_level(&self, level: PerformanceLevel) -> (r: Result<(), Error>) {
        self.sysfs.write_file("power_dpm_force_performance_level", level.as_str())
    }

    /// Returns the power levels of a kind, each value as text, and the active level.
    pub fn get_clock_levels(&self, kind: PowerLevelKind) -> (r: Result<PowerLevels<String>, Error>) {
        let v = read_value(&self.sysfs, kind.filename())?;
        let levels = power_levels::parse_power_levels(v.as_slice(), kind)?;
        Ok(power_levels::levels_as_text(levels))
    }

    /// Gets the core clock levels (in MHz).
    pub fn get_core_clock_levels(&self) -> (r: Result<PowerLevels<u64>, Error>) {
        let v = read_value(&self.sysfs, PowerLevelKind::CoreClock.filename())?;
        let levels = power_levels::parse_power_levels(v.as_slice(), PowerLevelKind::CoreClock)?;
        power_levels::levels_as_numbers(levels)
    }

    /// Gets the memory clock levels (in MHz).
    pub fn get_memory_clock_levels(&self) -> (r: Result<PowerLevels<u64>, Error>) {
        let v = read_value(&self.sysfs, PowerLevelKind::MemoryClock.filename())?;
        let levels = power_levels::parse_power_levels(v.as_slice(), PowerLevelKind::MemoryClock)?;
        power_levels::levels_as_numbers(levels)
    }

    /// Gets the PCIe speed levels.
    pub fn get_pcie_clock_levels(&self) -> (r: Result<PowerLevels<String>, Error>) {
        self.get_clock_levels(PowerLevelKind::PcieSpeed)
    }

    /// Enables only the given power levels of a kind. The performance level must be
    /// `manual`.
    pub fn set_enabled_power_levels(&self, kind: PowerLevelKind, levels: &[u8]) -> (r: Result<(), Error>) {
        let level = self.get_power_force_performance_level()?;
        let command = enabled_levels_for(level, levels)?;
        self.sysfs.write_file(kind.filename(), command.as_str())
    }

    /// Reads the clocks table from `pp_od_clk_voltage`.
    pub fn get_clocks_table(&self) -> (r: Result<ClocksTableGen, Error>) {
        let raw = self.sysfs.read_file("pp_od_clk_voltage")?;
        ClocksTableGen::from_str(raw.as_str())
    }

    /// Writes the given clocks table to `pp_od_clk_voltage`, one command per write, in the
    /// order that the table currently held by the driver requires. The values take effect
    /// once the returned handle is committed.
    pub fn set_clocks_table(&self, new_table: &ClocksTableGen) -> (r: Result<CommitHandle, Error>) {
        let old_table = self.get_clocks_table()?;
        let commands = new_table.get_commands(&old_table)?;
        let mut k: usize = 0;
        while k < commands.len()
            invariant
                k <= commands@.len(),
            decreases commands@.len() - k,
        {
            let mut line = to_chars(commands[k].as_str());
            line.push('\n');
            self.sysfs.write_file("pp_od_clk_voltage", to_string(line.as_slice()).as_str())?;
            k += 1;
        }
        Ok(CommitHandle::new("pp_od_clk_voltage"))
    }

    /// Resets the clocks table to the default configuration.
    pub fn reset_clocks_table(&self) -> (r: Result<(), Error>) {
        self.sysfs.write_file("pp_od_clk_voltage", "r\n")
    }

    /// Reads the power profile modes from `pp_power_profile_mode`.
    pub fn get_power_profile_modes(&self) -> (r: Result<PowerProfileModesTable, Error>) {
        let raw = self.sysfs.read_file("pp_power_profile_mode")?;
        PowerProfileModesTable::parse(raw.as_str())
    }

    /// Sets the current power profile mode.
    pub fn set_active_power_profile_mode(&self, i: u16) -> (r: Result<(), Error>) {
        let mut line: Vec<char> = Vec::new();
        crate::text::push_u64(&mut line, i as u64);
        line.push('\n');
        self.sysfs.write_file("pp_power_profile_mode", to_string(line.as_slice()).as_str())
    }

    /// Writes new heuristic values into the custom power profile.
    pub fn set_custom_power_profile_mode_heuristics(&self, components: &Vec<Vec<Option<i32>>>) -> (r: Result<(), Error>) {
        let table = self.get_power_profile_modes()?;
        let commands = table.custom_heuristics_commands(components)?;
        let mut k: usize = 0;
        while k < commands.len()
            invariant
                k <= commands@.len(),
            decreases commands@.len() - k,
        {
            let mut line = to_chars(commands[k].as_str());
            line.push('\n');
            self.sysfs.write_file("pp_power_profile_mode", to_string(line.as_slice()).as_str())?;
            k += 1;
        }
        Ok(())
    }

    fn read_fan_info(&self, file: &str, section_name: &str, range_name: &str) -> (r: Result<FanInfo, Error>) {
        let data = self.sysfs.read_file(file)?;
        let contents = FanCtrlContents::parse(data.as_str(), section_name)?;
        fan_control::fan_info(&contents, range_name)
    }

    fn set_fan_value(&self, file: &str, value: u32, section_name: &str, range_name: &str) -> (r: Result<CommitHandle, Error>) {
        let info = self.read_fan_info(file, section_name, range_name)?;
        fan_control::check_fan_value(info, value)?;
        let mut line: Vec<char> = Vec::new();
        crate::text::push_u64(&mut line, value as u64);
        line.push('\n');
        self.sysfs.write_file(file, to_string(line.as_slice()).as_str())?;
        Ok(CommitHandle::new(file))
    }

    fn reset_fan_value(&self, file: &str) -> (r: Result<(), Error>) {
        self.sysfs.write_file(file, "r\n")
    }

    /// Gets the fan acoustic limit (in RPM). RDNA 3 and newer.
    pub fn get_fan_acoustic_limit(&self) -> (r: Result<FanInfo, Error>) {
        self.read_fan_info("gpu_od/fan_ctrl/acoustic_limit_rpm_threshold", "OD_ACOUSTIC_LIMIT", "ACOUSTIC_LIMIT")
    }

    /// Gets the fan acoustic target (in RPM). RDNA 3 and newer.
    pub fn get_fan_acoustic_target(&self) -> (r: Result<FanInfo, Error>) {
        self.read_fan_info("gpu_od/fan_ctrl/acoustic_target_rpm_threshold", "OD_ACOUSTIC_TARGET", "ACOUSTIC_TARGET")
    }

    /// Gets the fan target temperature (in degrees). RDNA 3 and newer.
    pub fn get_fan_target_temperature(&self) -> (r: Result<FanInfo, Error>) {
        self.read_fan_info("gpu_od/fan_ctrl/fan_target_temperature", "FAN_TARGET_TEMPERATURE", "TARGET_TEMPERATURE")
    }

    /// Gets the fan minimum PWM (in percent). RDNA 3 and newer.
    pub fn get_fan_minimum_pwm(&self) -> (r: Result<FanInfo, Error>) {
        self.read_fan_info("gpu_od/fan_ctrl/fan_minimum_pwm", "FAN_MINIMUM_PWM", "MINIMUM_PWM")
    }

    /// Sets the fan acoustic limit (in RPM) if the reported range holds it.
    pub fn set_fan_acoustic_limit(&self, value: u32) -> (r: Result<CommitHandle, Error>) {
        self.set_fan_value("gpu_od/fan_ctrl/acoustic_limit_rpm_threshold", value, "OD_ACOUSTIC_LIMIT", "ACOUSTIC_LIMIT")
    }

    /// Sets the fan acoustic target (in RPM) if the reported range holds it.
    pub fn set_fan_acoustic_target(&self, value: u32) -> (r: Result<CommitHandle, Error>) {
        self.set_fan_value("gpu_od/fan_ctrl/acoustic_target_rpm_threshold", value, "OD_ACOUSTIC_TARGET", "ACOUSTIC_TARGET")
    }

    /// Sets the fan target temperature (in degrees) if the reported range holds it.
    pub fn set_fan_target_temperature(&self, value: u32) -> (r: Result<CommitHandle, Error>) {
        self.set_fan_value("gpu_od/fan_ctrl/fan_target_temperature", value, "FAN_TARGET_TEMPERATURE", "TARGET_TEMPERATURE")
    }

    /// Sets the fan minimum PWM (in percent) if the reported range holds it.
    pub fn set_fan_minimum_pwm(&self, value: u32) -> (r: Result<CommitHandle, Error>) {
        self.set_fan_value("gpu_od/fan_ctrl/fan_minimum_pwm", value, "FAN_MINIMUM_PWM", "MINIMUM_PWM")
    }

    /// Resets the fan acoustic limit.
    pub fn reset_fan_acoustic_limit(&self) -> (r: Result<(), Error>) {
        self.reset_fan_value("gpu_od/fan_ctrl/acoustic_limit_rpm_threshold")
    }

    /// Resets the fan acoustic target.
    pub fn reset_fan_acoustic_target(&self) -> (r: Result<(), Error>) {
        self.reset_fan_value("gpu_od/fan_ctrl/acoustic_target_rpm_threshold")
    }

    /// Resets the fan target temperature.
    pub fn reset_fan_target_temperature(&self) -> (r: Result<(), Error>) {
        self.reset_fan_value("gpu_od/fan_ctrl/fan_target_temperature")
    }

    /// Resets the fan minimum PWM.
    pub fn reset_fan_minimum_pwm(&self) -> (r: Result<(), Error>) {
        self.reset_fan_value("gpu_od/fan_ctrl/fan_minimum_pwm")
    }

    /// Gets the firmware fan curve. RDNA 3 and newer.
    pub fn get_fan_curve(&self) -> (r: Result<FanCurve, Error>) {
        let data = self.sysfs.read_file("gpu_od/fan_ctrl/fan_curve")?;
        let contents = FanCtrlContents::parse(data.as_str(), "OD_FAN_CURVE")?;
        fan_control::fan_curve(&contents)
    }

    /// Writes a new firmware fan curve, point by point, if every point lies within the
    /// reported ranges.
    pub fn set_fan_curve(&self, new_curve: &FanCurve) -> (r: Result<CommitHandle, Error>) {
        let current = self.get_fan_curve()?;
        let commands = fan_control::fan_curve_commands(&current, new_curve)?;
        let mut k: usize = 0;
        while k < commands.len()
            invariant
                k <= commands@.len(),
            decreases commands@.len() - k,
        {
            let mut line = to_chars(commands[k].as_str());
            line.push('\n');
            self.sysfs.write_file("gpu_od/fan_ctrl/fan_curve", to_string(line.as_slice()).as_str())?;
            k += 1;
        }
        Ok(CommitHandle::new("gpu_od/fan_ctrl/fan_curve"))
    }

    /// Resets the firmware fan curve.
    pub fn reset_fan_curve(&self) -> (r: Result<(), Error>) {
        self.reset_fan_value("gpu_od/fan_ctrl/fan_curve")
    }
}

} // verus!
