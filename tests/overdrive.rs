use amdgpu_sysfs::gpu_handle::overdrive::vega10::{OdRange, Table};
use amdgpu_sysfs::gpu_handle::overdrive::{
    check_clockspeed_in_range, detect_table_format, parse_level_line, parse_range_line,
    ClocksLevel, ClocksTableGen, Range, TableFormat,
};

const TABLE_RX580: &str = "OD_SCLK:
0:        300MHz        750mV
1:        600MHz        769mV
2:        900MHz        912mV
3:       1145MHz       1125mV
4:       1215MHz       1150mV
5:       1257MHz       1150mV
6:       1300MHz       1150mV
7:       1366MHz       1150mV
OD_MCLK:
0:        300MHz        750mV
1:       1000MHz        825mV
2:       1750MHz        975mV
OD_RANGE:
SCLK:     300MHz       2000MHz
MCLK:     300MHz       2250MHz
VDDC:     750mV        1200mV
";

fn arr_commands(commands: &[&str]) -> String {
    let mut output = commands.join("\n");
    output.push('\n');
    output
}

fn joined(commands: &[String]) -> String {
    let mut output = commands.join("\n");
    output.push('\n');
    output
}

#[test]
fn mod_parse_range_line_sclk() {
    let line = "SCLK:     300MHz       2000MHz";
    let (level, name) = parse_range_line(line, 50).unwrap();
    assert_eq!(name, "SCLK");
    assert_eq!(level.min, Some(300));
    assert_eq!(level.max, Some(2000));
}

#[test]
fn mod_parse_level_line_basic() {
    let line = "0:        300MHz        750mV";
    let (level, i) = parse_level_line(line, 50).unwrap();
    assert_eq!(i, 0);
    assert_eq!(level.clockspeed, 300);
    assert_eq!(level.voltage, 750);
}

#[test]
fn gen1_parse_level_line_basic() {
    let line = "0:        300MHz        750mV";
    let (level, i) = parse_level_line(line, 50).unwrap();
    assert_eq!(i, 0);
    assert_eq!(level.clockspeed, 300);
    assert_eq!(level.voltage, 750);
}

#[test]
fn gen1_parse_range_line_sclk() {
    let line = "SCLK:     300MHz       2000MHz";
    let (level, name) = parse_range_line(line, 50).unwrap();
    assert_eq!(name, "SCLK");
    assert_eq!(level.min, Some(300));
    assert_eq!(level.max, Some(2000));
}

#[test]
fn allowed_ranges() {
    let range = Some(Range::full(300, 1000));
    check_clockspeed_in_range(range, 300).unwrap();
    check_clockspeed_in_range(range, 750).unwrap();
    check_clockspeed_in_range(range, 1000).unwrap();
    check_clockspeed_in_range(range, 1001).unwrap_err();
    check_clockspeed_in_range(range, 250).unwrap_err();
}

#[test]
fn parse_range_line_voltage_point() {
    let line = "VDDC_CURVE_SCLK[2]:     800Mhz       2150Mhz";
    let (range, name) = parse_range_line(line, 0).unwrap();
    assert_eq!(range, Range::full(800, 2150));
    assert_eq!(name, "VDDC_CURVE_SCLK[2]");
}

#[test]
fn range_line_errors_carry_the_line() {
    let err = parse_range_line("SCLK:     300MHz", 7).unwrap_err();
    match err.kind {
        amdgpu_sysfs::error::ErrorKind::ParseError { line, .. } => assert_eq!(line, 7),
        _ => panic!("expected a parse error"),
    }
    assert!(parse_range_line("SCLK: abcMHz 2000MHz", 1).is_err());
    assert!(parse_range_line("", 1).is_err());
    let (range, _) = parse_range_line("VDDC: 750MV 1200Mv", 1).unwrap();
    assert_eq!(range, Range::full(750, 1200));
}

#[test]
fn vega10_parse_full_table() {
    let table = Table::from_str(TABLE_RX580).unwrap();

    let sclk_levels = [
        (300, 750),
        (600, 769),
        (900, 912),
        (1145, 1125),
        (1215, 1150),
        (1257, 1150),
        (1300, 1150),
        (1366, 1150),
    ]
    .map(|(clockspeed, voltage)| ClocksLevel { clockspeed, voltage });
    let mclk_levels =
        [(300, 750), (1000, 825), (1750, 975)].map(|(clockspeed, voltage)| ClocksLevel {
            clockspeed,
            voltage,
        });
    let ranges = OdRange {
        sclk: Range::full(300, 2000),
        mclk: Some(Range::full(300, 2250)),
        vddc: Some(Range::full(750, 1200)),
    };

    assert_eq!(table.sclk_levels, sclk_levels);
    assert_eq!(table.mclk_levels, mclk_levels);
    assert_eq!(table.od_range, ranges);
}

#[test]
fn gen1_parse_full_table() {
    let data = r#"
            OD_SCLK:
            0:        300MHz        750mV
            1:        600MHz        769mV
            2:        900MHz        912mV
            3:       1145MHz       1125mV
            4:       1215MHz       1150mV
            5:       1257MHz       1150mV
            6:       1300MHz       1150mV
            7:       1366MHz       1150mV
            OD_MCLK:
            0:        300MHz        750mV
            1:       1000MHz        825mV
            2:       1750MHz        975mV
            OD_RANGE:
            SCLK:     300MHz       2000MHz
            MCLK:     300MHz       2250MHz
            VDDC:     750mV        1200mV
        "#;
    let table = Table::from_str(data).unwrap();
    assert_eq!(table.sclk_levels.len(), 8);
    assert_eq!(table.sclk_levels[7], ClocksLevel::new(1366, 1150));
    assert_eq!(table.mclk_levels[2], ClocksLevel::new(1750, 975));
    assert_eq!(
        table.od_range,
        OdRange {
            sclk: Range::full(300, 2000),
            mclk: Some(Range::full(300, 2250)),
            vddc: Some(Range::full(750, 1200)),
        }
    );
}

#[test]
fn table_into_commands() {
    let mut table = Table::from_str(TABLE_RX580).unwrap();

    table.set_max_sclk(1500).unwrap();
    table.set_max_mclk(2250).unwrap();

    table.set_min_sclk(350).unwrap();
    table.set_min_mclk(360).unwrap();

    table.set_min_voltage(800).unwrap();
    table.set_max_voltage(1200).unwrap();

    let commands = joined(&table.get_commands());

    let expected_commands = arr_commands(&[
        "s 0 350 800",
        "s 1 600 800",
        "s 2 900 912",
        "s 3 1145 1125",
        "s 4 1215 1150",
        "s 5 1257 1150",
        "s 6 1300 1150",
        "s 7 1500 1200",
        "m 0 360 750",
        "m 1 1000 825",
        "m 2 2250 975",
    ]);

    assert_eq!(expected_commands, commands);
}

#[test]
fn generic_actions() {
    let mut table = Table::from_str(TABLE_RX580).unwrap();
    let sclk = table.get_max_sclk().unwrap();
    assert_eq!(sclk, 1366);
    let mclk = table.get_max_mclk().unwrap();
    assert_eq!(mclk, 1750);
    let voltage = table.get_max_sclk_voltage().unwrap();
    assert_eq!(voltage, 1150);

    table.set_max_sclk(1400).unwrap();
    let sclk = table.get_max_sclk().unwrap();
    assert_eq!(sclk, 1400);
    assert_eq!(table.sclk_levels[7].clockspeed, 1400);

    table.set_max_mclk(1800).unwrap();
    let mclk = table.get_max_mclk().unwrap();
    assert_eq!(mclk, 1800);
    assert_eq!(table.mclk_levels[2].clockspeed, 1800);

    let sclk_range = table.get_max_sclk_range();
    let mclk_range = table.get_max_mclk_range();
    let voltage_range = table.get_max_voltage_range();
    assert_eq!(sclk_range, Some(Range::full(300, 2000)));
    assert_eq!(mclk_range, Some(Range::full(300, 2250)));
    assert_eq!(voltage_range, Some(Range::full(750, 1200)));
}

#[test]
fn undervolt_normalize() {
    let mut table = Table::from_str(TABLE_RX580).unwrap();
    table.set_max_voltage(1100).unwrap();
    assert!(table.sclk_levels.iter().all(|level| level.voltage <= 1100));
}

#[test]
fn underclock_normalize() {
    let mut table = Table::from_str(TABLE_RX580).unwrap();
    table.set_max_sclk(1200).unwrap();
    assert!(table
        .sclk_levels
        .iter()
        .all(|level| level.clockspeed <= 1200));
}

#[test]
fn underclock_memory_normalize() {
    let mut table = Table::from_str(TABLE_RX580).unwrap();
    table.set_max_mclk(900).unwrap();
    assert!(table
        .mclk_levels
        .iter()
        .all(|level| level.clockspeed <= 900));
}

#[test]
fn min_voltage_normalize() {
    let mut table = Table::from_str(TABLE_RX580).unwrap();
    table.set_min_voltage(800).unwrap();
    assert!(table.sclk_levels.iter().all(|level| level.voltage >= 800));
}

#[test]
fn min_clockspeed_normalize() {
    let mut table = Table::from_str(TABLE_RX580).unwrap();
    table.set_min_sclk(750).unwrap();
    assert!(table
        .sclk_levels
        .iter()
        .all(|level| level.clockspeed >= 750));
}

#[test]
fn min_memory_clockspeed_normalize() {
    let mut table = Table::from_str(TABLE_RX580).unwrap();
    table.set_min_mclk(1100).unwrap();
    assert!(table
        .mclk_levels
        .iter()
        .all(|level| level.clockspeed >= 1100));
}

#[test]
fn gen1_max_values_and_unedited_commands() {
    let table = ClocksTableGen::from_str(TABLE_RX580).unwrap();
    assert!(matches!(table, ClocksTableGen::Vega10(_)));
    assert_eq!(table.get_max_sclk(), Some(1366));
    assert_eq!(table.get_max_mclk(), Some(1750));
    let commands = table.get_commands(&table.clone()).unwrap();
    assert_eq!(
        commands,
        vec![
            "s 0 300 750",
            "s 1 600 769",
            "s 2 900 912",
            "s 3 1145 1125",
            "s 4 1215 1150",
            "s 5 1257 1150",
            "s 6 1300 1150",
            "s 7 1366 1150",
            "m 0 300 750",
            "m 1 1000 825",
            "m 2 1750 975",
        ]
    );
}

#[test]
fn gen1_skipped_level_index_is_rejected() {
    let data = "OD_SCLK:\n0: 300MHz 750mV\n2: 600MHz 769mV\nOD_RANGE:\nSCLK: 300MHz 2000MHz\n";
    let err = Table::from_str(data).unwrap_err();
    match err.kind {
        amdgpu_sysfs::error::ErrorKind::ParseError { line, .. } => assert_eq!(line, 3),
        _ => panic!("expected a parse error"),
    }
}

#[test]
fn gen1_missing_sclk_range_is_rejected() {
    let data = "OD_SCLK:\n0: 300MHz 750mV\nOD_RANGE:\nMCLK: 300MHz 2000MHz\n";
    let err = Table::from_str(data).unwrap_err();
    match err.kind {
        amdgpu_sysfs::error::ErrorKind::ParseError { line, .. } => assert_eq!(line, 5),
        _ => panic!("expected a parse error"),
    }
}

#[test]
fn gen1_line_before_section_is_rejected() {
    assert!(Table::from_str("0: 300MHz 750mV\n").is_err());
    assert!(Table::from_str("OD_RANGE:\nFOO: 1MHz 2MHz\n").is_err());
}

#[test]
fn gen1_nul_bytes_and_blank_lines_are_ignored() {
    let data = "\0OD_SCLK:\0\n\n0: 300MHz 750mV\0\n   \nOD_RANGE:\nSCLK: 300MHz 2000MHz\n";
    let table = Table::from_str(data).unwrap();
    assert_eq!(table.sclk_levels, vec![ClocksLevel::new(300, 750)]);
    assert_eq!(table.od_range.mclk, None);
    assert_eq!(table.od_range.vddc, None);
}

#[test]
fn gen1_set_max_sclk_out_of_range_names_value_and_bounds() {
    let mut table = Table::from_str(TABLE_RX580).unwrap();
    let err = table.set_max_sclk(2100).unwrap_err();
    match err.kind {
        amdgpu_sysfs::error::ErrorKind::NotAllowed(msg) => {
            assert_eq!(msg, "Given clockspeed 2100 is out of the allowed OD range 300 to 2000")
        }
        _ => panic!("expected NotAllowed"),
    }
    assert_eq!(table.get_max_sclk(), Some(1366));
    table.set_max_sclk(2000).unwrap();
    assert_eq!(table.get_max_sclk(), Some(2000));
}

#[test]
fn gen1_setting_an_empty_list_is_not_allowed() {
    let data = "OD_SCLK:\n0: 300MHz 750mV\nOD_RANGE:\nSCLK: 300MHz 2000MHz\nMCLK: 300MHz 2000MHz\n";
    let mut table = Table::from_str(data).unwrap();
    let err = table.set_max_mclk(1000).unwrap_err();
    assert!(matches!(err.kind, amdgpu_sysfs::error::ErrorKind::NotAllowed(_)));
    let err = table.set_max_voltage(800).unwrap_err();
    assert!(matches!(err.kind, amdgpu_sysfs::error::ErrorKind::NotAllowed(_)));
}

#[test]
fn detect_format_of_gen1_text() {
    assert_eq!(detect_table_format(TABLE_RX580), TableFormat::Vega10);
    assert_eq!(
        detect_table_format("OD_SCLK:\n0: 500Mhz\n1: 2500Mhz\nOD_RANGE:\nSCLK: 500Mhz 3000Mhz\n"),
        TableFormat::Vega20
    );
    assert_eq!(
        detect_table_format("OD_RANGE:\nVDDC_CURVE_SCLK[0]: 1Mhz 2Mhz\n"),
        TableFormat::Vega20
    );
    assert_eq!(detect_table_format("OD_VDDGFX_OFFSET:\n0mV\n"), TableFormat::Vega20);
}

fn raise_max_sclk<T: amdgpu_sysfs::gpu_handle::overdrive::ClocksTable>(table: &mut T, v: i32) -> Option<i32> {
    amdgpu_sysfs::gpu_handle::overdrive::ClocksTable::set_max_sclk(table, v).ok()?;
    amdgpu_sysfs::gpu_handle::overdrive::ClocksTable::get_max_sclk(table)
}

#[test]
fn shared_interface_over_both_formats() {
    let mut gen1 = Table::from_str(TABLE_RX580).unwrap();
    assert_eq!(raise_max_sclk(&mut gen1, 1400), Some(1400));
    assert_eq!(raise_max_sclk(&mut gen1, 2500), None);
    let mut table = ClocksTableGen::from_str(TABLE_RX580).unwrap();
    assert_eq!(raise_max_sclk(&mut table, 1450), Some(1450));
    let mut gen2 = amdgpu_sysfs::gpu_handle::overdrive::vega20::Table::from_str(
        "OD_SCLK:\n0: 500Mhz\n1: 2000Mhz\nOD_RANGE:\nSCLK: 500Mhz 3000Mhz\n",
    )
    .unwrap();
    assert_eq!(raise_max_sclk(&mut gen2, 2900), Some(2900));
    assert_eq!(raise_max_sclk(&mut gen2, 3100), None);
}

#[test]
fn detect_type_vega10() {
    let table = ClocksTableGen::from_str(TABLE_RX580).unwrap();
    match table {
        ClocksTableGen::Vega10(t) => {
            assert_eq!(t.sclk_levels.len(), 8);
            assert_eq!(t.mclk_levels.len(), 3);
        }
        ClocksTableGen::Vega20(_) => panic!("expected the Vega10 format"),
    }
}
