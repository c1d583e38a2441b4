use amdgpu_sysfs::error::{Error, ErrorKind};
use amdgpu_sysfs::gpu_handle::fan_control::FanCtrlContents;
use amdgpu_sysfs::gpu_handle::{
    enabled_levels_command, enabled_levels_for, GpuHandle, PerformanceLevel, PowerLevelKind,
};
use amdgpu_sysfs::hw_mon::{FanControlMethod, HwMon};
use amdgpu_sysfs::sysfs::SysFS;
use std::cell::RefCell;
use std::collections::HashMap;
use std::rc::Rc;

#[derive(Clone)]
struct MockSysFs {
    files: Rc<RefCell<HashMap<String, String>>>,
}

impl MockSysFs {
    fn new(files: &[(&str, &str)]) -> Self {
        let map = files
            .iter()
            .map(|(k, v)| (k.to_string(), v.to_string()))
            .collect();
        MockSysFs {
            files: Rc::new(RefCell::new(map)),
        }
    }

    fn get(&self, name: &str) -> Option<String> {
        self.files.borrow().get(name).cloned()
    }
}

impl SysFS for MockSysFs {
    fn read_file(&self, file: &str) -> Result<String, Error> {
        match self.files.borrow().get(file) {
            Some(v) => Ok(v.clone()),
            None => Err(Error::from_kind(ErrorKind::IoError {
                not_found: true,
                msg: format!("{file} not found"),
            })),
        }
    }

    fn write_file(&self, file: &str, contents: &str) -> Result<(), Error> {
        self.files
            .borrow_mut()
            .insert(file.to_string(), contents.to_string());
        Ok(())
    }
}

fn create_mock_gpu_handle() -> GpuHandle<MockSysFs> {
    let device = MockSysFs::new(&[
        (
            "uevent",
            "DRIVER=mock\nPCI_ID=1002:67DF\nPCI_SUBSYS_ID=1DA2:E387\nPCI_SLOT_NAME=0000:01:00.0\n",
        ),
        ("gpu_busy_percent", "100\n"),
        ("mem_info_vram_total", "536870912\n"),
        ("mem_info_vram_used", "268435456\n"),
        ("vbios_version", "MOCKFS-VBIOS\0\n"),
        ("power_dpm_force_performance_level", "auto\n"),
        ("pp_dpm_sclk", "0: 300Mhz\n1: 600Mhz *\n2: 900Mhz\n"),
    ]);
    let port = MockSysFs::new(&[
        ("current_link_speed", "8.0 GT/s PCIe\n"),
        ("max_link_width", "16\n"),
    ]);
    let hw_mon = HwMon::new_from_path(MockSysFs::new(&[
        ("name", "amdgpu\n"),
        ("pwm1", "255\n"),
        ("pwm1_enable", "2\n"),
        ("fan1_input", "1600\n"),
        ("fan1_target", "1600\n"),
        ("fan1_max", "3200\n"),
        ("fan1_min", "0\n"),
        ("in0_input", "975\n"),
        ("in1_input", "975\n"),
        ("freq1_input", "1366000000\n"),
    ]))
    .expect("Failed to create hw monitor");
    GpuHandle::new(device, port, vec![hw_mon]).expect("Failed to create GPU handle")
}

#[test]
fn get_ids() {
    let gpu_handle = create_mock_gpu_handle();

    assert_eq!(gpu_handle.get_driver(), "mock");
    assert_eq!(gpu_handle.get_pci_id(), Some(("1002", "67DF")));
    assert_eq!(gpu_handle.get_pci_subsys_id(), Some(("1DA2", "E387")));
    assert_eq!(gpu_handle.get_pci_slot_name(), Some("0000:01:00.0"));
}

#[test]
fn get_usage() {
    let gpu_handle = create_mock_gpu_handle();

    assert_eq!(gpu_handle.get_busy_percent().unwrap(), 100);
    assert_eq!(gpu_handle.get_total_vram().unwrap(), 512 * 1024 * 1024);
    assert_eq!(gpu_handle.get_used_vram().unwrap(), 256 * 1024 * 1024);
}

#[test]
fn get_bios() {
    let gpu_handle = create_mock_gpu_handle();

    assert_eq!(
        gpu_handle.get_vbios_version().unwrap(),
        "MOCKFS-VBIOS".to_string()
    );
}

#[test]
fn get_performance_level() {
    let gpu_handle = create_mock_gpu_handle();

    assert_eq!(
        gpu_handle.get_power_force_performance_level().unwrap(),
        PerformanceLevel::Auto
    );
}

#[test]
fn get_link() {
    let gpu_handle = create_mock_gpu_handle();

    assert_eq!(
        gpu_handle.get_current_link_speed().unwrap(),
        "8.0 GT/s PCIe".to_string()
    );
    assert_eq!(gpu_handle.get_max_link_width().unwrap(), "16".to_string());
}

#[test]
fn get_fan_info() {
    let gpu_handle = create_mock_gpu_handle();
    let hw_mon = gpu_handle.hw_monitors.first().unwrap();

    assert_eq!(hw_mon.get_fan_pwm().unwrap(), 255);

    assert_eq!(hw_mon.get_fan_current().unwrap(), 1600);
    assert_eq!(hw_mon.get_fan_target().unwrap(), 1600);

    assert_eq!(hw_mon.get_fan_max().unwrap(), 3200);
    assert_eq!(hw_mon.get_fan_min().unwrap(), 0);
    assert_eq!(hw_mon.get_fan_control_method().unwrap(), FanControlMethod::Auto);
    assert_eq!(hw_mon.get_gpu_clockspeed().unwrap(), 1366);
}

#[test]
fn get_gpu_voltage() {
    let gpu_handle = create_mock_gpu_handle();
    let hw_mon = gpu_handle.hw_monitors.first().unwrap();
    assert_eq!(hw_mon.get_gpu_voltage().unwrap(), 975);
}

#[test]
fn get_northbridge_voltage() {
    let gpu_handle = create_mock_gpu_handle();
    let hw_mon = gpu_handle.hw_monitors.first().unwrap();
    assert_eq!(hw_mon.get_northbridge_voltage().unwrap(), 975);
}

#[test]
fn missing_driver_is_invalid() {
    let device = MockSysFs::new(&[("uevent", "PCI_ID=1002:67DF\n")]);
    let port = MockSysFs::new(&[]);
    let err = GpuHandle::new(device, port, Vec::new()).err().unwrap();
    assert!(matches!(err.kind, ErrorKind::InvalidSysFS));
    let device = MockSysFs::new(&[("uevent", "DRIVER\n")]);
    let err = GpuHandle::new(device, MockSysFs::new(&[]), Vec::new()).err().unwrap();
    assert!(matches!(err.kind, ErrorKind::ParseError { .. }));
}

#[test]
fn missing_file_is_not_found() {
    let gpu_handle = create_mock_gpu_handle();
    let err = gpu_handle.get_max_link_speed().unwrap_err();
    assert!(err.is_not_found());
}

#[test]
fn clock_levels_and_enabled_levels() {
    let gpu_handle = create_mock_gpu_handle();
    let levels = gpu_handle.get_core_clock_levels().unwrap();
    assert_eq!(levels.levels, vec![300, 600, 900]);
    assert_eq!(levels.active, Some(1));
    assert_eq!(levels.active_level(), Some(&600));
    assert!(gpu_handle
        .set_enabled_power_levels(PowerLevelKind::CoreClock, &[0, 1])
        .is_err());
    gpu_handle
        .set_power_force_performance_level(PerformanceLevel::Manual)
        .unwrap();
    gpu_handle
        .set_enabled_power_levels(PowerLevelKind::CoreClock, &[0, 1])
        .unwrap();
    assert_eq!(gpu_handle.sysfs().get("pp_dpm_sclk").unwrap(), "0 1 ");
}

#[test]
fn clocks_table_is_written_line_by_line() {
    let device = MockSysFs::new(&[
        ("uevent", "DRIVER=mock\n"),
        (
            "pp_od_clk_voltage",
            "OD_SCLK:\n0: 500Mhz\n1: 2000Mhz\nOD_MCLK:\n0: 97Mhz\n1: 1000MHz\nOD_RANGE:\nSCLK: 500Mhz 3000Mhz\nMCLK: 97Mhz 1500Mhz\n",
        ),
    ]);
    let gpu_handle = GpuHandle::new(device, MockSysFs::new(&[]), Vec::new()).unwrap();
    let mut table = gpu_handle.get_clocks_table().unwrap();
    table.set_max_mclk(1200).unwrap();
    let commit = gpu_handle.set_clocks_table(&table).unwrap();
    assert_eq!(gpu_handle.sysfs().get("pp_od_clk_voltage").unwrap(), "m 1 1200\n");
    commit.commit(gpu_handle.sysfs()).unwrap();
    assert_eq!(gpu_handle.sysfs().get("pp_od_clk_voltage").unwrap(), "c\n");
}

#[test]
fn performance_level_text() {
    assert_eq!(PerformanceLevel::from_str("Manual").unwrap(), PerformanceLevel::Manual);
    assert_eq!(PerformanceLevel::from_str("Highest Clocks").unwrap(), PerformanceLevel::High);
    assert!(PerformanceLevel::from_str("turbo").is_err());
    assert_eq!(PerformanceLevel::Low.as_str(), "low");
    assert_eq!(PerformanceLevel::default(), PerformanceLevel::Auto);
    assert_eq!(PowerLevelKind::MemoryClock.filename(), "pp_dpm_mclk");
    assert_eq!(PowerLevelKind::PcieSpeed.value_suffix(), None);
    assert_eq!(FanControlMethod::from_repr(1), Some(FanControlMethod::Manual));
    assert_eq!(FanControlMethod::from_repr(3), None);
}

#[test]
fn parse_od_acoustic_limit() {
    let data = "\
OD_ACOUSTIC_LIMIT:
2450
OD_RANGE:
ACOUSTIC_LIMIT: 500 3100";
    let contents = FanCtrlContents::parse(data, "OD_ACOUSTIC_LIMIT").unwrap();
    let expected_contents = FanCtrlContents {
        contents: "2450".to_owned(),
        od_range: vec![(
            "ACOUSTIC_LIMIT".to_owned(),
            ("500".to_owned(), "3100".to_owned()),
        )],
    };
    assert_eq!(expected_contents, contents);
}

#[test]
fn parse_fan_curve() {
    let data = "\
OD_FAN_CURVE:
0: 0C 0%
1: 0C 0%
2: 0C 0%
3: 0C 0%
4: 0C 0%
OD_RANGE:
FAN_CURVE(hotspot temp): 25C 100C
FAN_CURVE(fan speed): 20% 100%";
    let contents = FanCtrlContents::parse(data, "OD_FAN_CURVE").unwrap();
    let expected_contents = FanCtrlContents {
        contents: "\
0: 0C 0%
1: 0C 0%
2: 0C 0%
3: 0C 0%
4: 0C 0%"
            .to_owned(),
        od_range: vec![
            (
                "FAN_CURVE(hotspot temp)".to_owned(),
                ("25C".to_owned(), "100C".to_owned()),
            ),
            (
                "FAN_CURVE(fan speed)".to_owned(),
                ("20%".to_owned(), "100%".to_owned()),
            ),
        ],
    };
    assert_eq!(expected_contents, contents);
    let curve = amdgpu_sysfs::gpu_handle::fan_control::fan_curve(&contents).unwrap();
    assert_eq!(curve.points, vec![(0, 0); 5]);
    let ranges = curve.allowed_ranges.unwrap();
    assert_eq!(ranges.temperature_range, (25, 100));
    assert_eq!(ranges.speed_range, (20, 100));
}

#[test]
fn fan_value_outside_range_is_not_allowed() {
    let device = MockSysFs::new(&[
        ("uevent", "DRIVER=mock\n"),
        (
            "gpu_od/fan_ctrl/acoustic_limit_rpm_threshold",
            "OD_ACOUSTIC_LIMIT:\n2450\nOD_RANGE:\nACOUSTIC_LIMIT: 500 3100\n",
        ),
    ]);
    let gpu_handle = GpuHandle::new(device, MockSysFs::new(&[]), Vec::new()).unwrap();
    let info = gpu_handle.get_fan_acoustic_limit().unwrap();
    assert_eq!(info.current, 2450);
    assert_eq!(info.allowed_range, Some((500, 3100)));
    assert!(gpu_handle.set_fan_acoustic_limit(3200).is_err());
    gpu_handle.set_fan_acoustic_limit(3000).unwrap();
    assert_eq!(
        gpu_handle
            .sysfs()
            .get("gpu_od/fan_ctrl/acoustic_limit_rpm_threshold")
            .unwrap(),
        "3000\n"
    );
}

#[test]
fn enabled_levels_text() {
    assert_eq!(enabled_levels_command(&[0, 2]).unwrap(), "0 2 ");
    assert!(enabled_levels_command(&[10]).is_err());
    assert!(enabled_levels_for(PerformanceLevel::Auto, &[0]).is_err());
    assert_eq!(enabled_levels_for(PerformanceLevel::Manual, &[1]).unwrap(), "1 ");
}
