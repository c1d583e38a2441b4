//! Hardware monitoring
use crate::error::{Error, ErrorKind};
use crate::sysfs::{read_unsigned, read_value, SysFS};
use crate::text::{to_chars, to_string};
use vstd::prelude::*;

verus! {

/// A hardware monitor: reports real-time information about the device, such as clocks,
/// voltages and fan speeds.
pub struct HwMon<F: SysFS> {
    sysfs: F,
}

/// The way the fan speed is controlled.
#[derive(Debug, Clone, Copy, PartialEq, Eq, Structural)]
pub enum FanControlMethod {
    /// No fan speed control.
    Disabled,
    /// Manual fan speed control via the PWM interface.
    Manual,
    /// Automatic fan speed control (by the kernel).
    Auto,
}

impl FanControlMethod {
    /// The method that a `pwm1_enable` digit stands for.
    pub fn from_repr(repr: u32) -> (r: Option<Self>)
        ensures
            r == (if repr == 0 {
                Some(FanControlMethod::Disabled)
            } else if repr == 1 {
                Some(FanControlMethod::Manual)
            } else if repr == 2 {
                Some(FanControlMethod::Auto)
            } else {
                None
            }),
    {
        match repr {
            0 => Some(FanControlMethod::Disabled),
            1 => Some(FanControlMethod::Manual),
            2 => Some(FanControlMethod::Auto),
            _ => None,
        }
    }

    /// The `pwm1_enable` digit of the method.
    pub fn to_repr(&self) -> (r: u32)
        ensures
            r == match self {
                FanControlMethod::Disabled => 0u32,
                FanControlMethod::Manual => 1u32,
                FanControlMethod::Auto => 2u32,
            },
    {
        match self {
            FanControlMethod::Disabled => 0,
            FanControlMethod::Manual => 1,
            FanControlMethod::Auto => 2,
        }
    }
}

/// Hertz in a megahertz.
pub const HZ_PER_MHZ: u64 = 1000000;

fn write_number<F: SysFS>(fs: &F, file: &str, v: u64) -> (r: Result<(), Error>) {
    let mut line: Vec<char> = Vec::new();
    crate::text::push_u64(&mut line, v);
    fs.write_file(file, to_string(line.as_slice()).as_str())
}

impl<F: SysFS> HwMon<F> {
    /// Opens the hardware monitor in a SysFS directory, which must have a `name` file.
    pub fn new_from_path(sysfs: F) -> (r: Result<Self, Error>) {
        let _name = read_value(&sysfs, "name")?;
        Ok(HwMon { sysfs })
    }

    /// The directory of the monitor.
    pub fn sysfs(&self) -> &F {
        &self.sysfs
    }

    fn read_clockspeed(&self, file: &str) -> (r: Result<u64, Error>)
        ensures
            r matches Ok(v) ==> v <= u64::MAX / HZ_PER_MHZ,
    {
        let hz = read_unsigned(&self.sysfs, file, u64::MAX)?;
        Ok(hz / HZ_PER_MHZ)
    }

    /// Gets the current GFX/compute clockspeed in MHz.
    pub fn get_gpu_clockspeed(&self) -> (r: Result<u64, Error>) {
        self.read_clockspeed("freq1_input")
    }

    /// Gets the current memory clockspeed in MHz.
    pub fn get_vram_clockspeed(&self) -> (r: Result<u64, Error>) {
        self.read_clockspeed("freq2_input")
    }

    fn read_u8(&self, file: &str) -> (r: Result<u8, Error>) {
        let v = read_unsigned(&self.sysfs, file, u8::MAX as u64)?;
        Ok(v as u8)
    }

    fn read_u32(&self, file: &str) -> (r: Result<u32, Error>) {
        let v = read_unsigned(&self.sysfs, file, u32::MAX as u64)?;
        Ok(v as u32)
    }

    /// Gets the pulse width modulation fan level.
    pub fn get_fan_pwm(&self) -> (r: Result<u8, Error>) {
        self.read_u8("pwm1")
    }

    /// Gets the minimum pulse width modulation fan level.
    pub fn get_fan_min_pwm(&self) -> (r: Result<u8, Error>) {
        self.read_u8("pwm1_min")
    }

    /// Gets the maximum pulse width modulation fan level.
    pub fn get_fan_max_pwm(&self) -> (r: Result<u8, Error>) {
        self.read_u8("pwm1_max")
    }

    /// Sets the pulse width modulation fan level.
    pub fn set_fan_pwm(&self, pwm: u8) -> (r: Result<(), Error>) {
        write_number(&self.sysfs, "pwm1", pwm as u64)
    }

    /// Gets the current fan speed in RPM.
    pub fn get_fan_current(&self) -> (r: Result<u32, Error>) {
        self.read_u32("fan1_input")
    }

    /// Gets the maximum possible fan speed in RPM.
    pub fn get_fan_max(&self) -> (r: Result<u32, Error>) {
        self.read_u32("fan1_max")
    }

    /// Gets the minimum possible fan speed in RPM.
    pub fn get_fan_min(&self) -> (r: Result<u32, Error>) {
        self.read_u32("fan1_min")
    }

    /// Gets the currently desired fan speed in RPM.
    pub fn get_fan_target(&self) -> (r: Result<u32, Error>) {
        self.read_u32("fan1_target")
    }

    /// Sets the desired fan speed in RPM.
    pub fn set_fan_target(&self, target: u32) -> (r: Result<(), Error>) {
        write_number(&self.sysfs, "fan1_target", target as u64)
    }

    /// Gets the fan control method (`pwm1_enable`).
    pub fn get_fan_control_method(&self) -> (r: Result<FanControlMethod, Error>) {
        let repr = self.read_u32("pwm1_enable")?;
        match FanControlMethod::from_repr(repr) {
            Some(m) => Ok(m),
            None => Err(Error::from_kind(ErrorKind::Unsupported(to_string(
                to_chars("Unexpected pwm1_enable (driver bug or unsupported?)").as_slice(),
            )))),
        }
    }

    /// Sets the fan control method (`pwm1_enable`).
    pub fn set_fan_control_method(&self, method: FanControlMethod) -> (r: Result<(), Error>) {
        write_number(&self.sysfs, "pwm1_enable", method.to_repr() as u64)
    }

    /// Gets the GPU voltage in millivolts.
    pub fn get_gpu_voltage(&self) -> (r: Result<u64, Error>) {
        read_unsigned(&self.sysfs, "in0_input", u64::MAX)
    }

    /// Gets the north bridge voltage in millivolts.
    pub fn get_northbridge_voltage(&self) -> (r: Result<u64, Error>) {
        read_unsigned(&self.sysfs, "in1_input", u64::MAX)
    }
}

} // verus!
