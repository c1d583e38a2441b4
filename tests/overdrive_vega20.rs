use amdgpu_sysfs::gpu_handle::overdrive::vega20::{OdRange, Table};
use amdgpu_sysfs::gpu_handle::overdrive::{ClocksLevel, ClocksTableGen, Range};

const TABLE_5700XT: &str = "OD_SCLK:
0: 800Mhz
1: 2100Mhz
OD_MCLK:
1: 875MHz
OD_VDDC_CURVE:
0: 800MHz 711mV
1: 1450MHz 801mV
2: 2100MHz 1191mV
OD_RANGE:
SCLK:     800Mhz       2150Mhz
MCLK:     625Mhz        950Mhz
VDDC_CURVE_SCLK[0]:     800Mhz       2150Mhz
VDDC_CURVE_VOLT[0]:     750mV        1200mV
VDDC_CURVE_SCLK[1]:     800Mhz       2150Mhz
VDDC_CURVE_VOLT[1]:     750mV        1200mV
VDDC_CURVE_SCLK[2]:     800Mhz       2150Mhz
VDDC_CURVE_VOLT[2]:     750mV        1200mV
";

const TABLE_5500XT: &str = "OD_SCLK:
0: 500Mhz
1: 1845Mhz
OD_MCLK:
1: 875MHz
OD_VDDC_CURVE:
0: 500MHz 710mV
1: 1162MHz 794mV
2: 1845MHz 1095mV
OD_RANGE:
SCLK:     500Mhz       2150Mhz
MCLK:     625Mhz        950Mhz
VDDC_CURVE_SCLK[0]:     500Mhz       2150Mhz
VDDC_CURVE_VOLT[0]:     700mV        1200mV
VDDC_CURVE_SCLK[1]:     500Mhz       2150Mhz
VDDC_CURVE_VOLT[1]:     700mV        1200mV
VDDC_CURVE_SCLK[2]:     500Mhz       2150Mhz
VDDC_CURVE_VOLT[2]:     700mV        1200mV
";

const TABLE_6700XT: &str = "OD_SCLK:
0: 500Mhz
1: 2725Mhz
OD_MCLK:
0: 97Mhz
1: 1000MHz
OD_VDDGFX_OFFSET:
0mV
OD_RANGE:
SCLK:     500Mhz       2800Mhz
MCLK:     674Mhz       1075Mhz
";

const TABLE_6800: &str = "OD_SCLK:
0: 500Mhz
1: 2475Mhz
OD_MCLK:
0: 97Mhz
1: 1000MHz
OD_VDDGFX_OFFSET:
0mV
OD_RANGE:
SCLK:     500Mhz       2600Mhz
MCLK:     674Mhz       1075Mhz
";

const TABLE_PHOENIX: &str = "OD_SCLK:
0: 800Mhz
1: 2700Mhz
OD_RANGE:
SCLK:     800Mhz       2700Mhz
";

const TABLE_6900XT: &str = "OD_SCLK:
0: 500Mhz
1: 2660Mhz
OD_MCLK:
0: 97Mhz
1: 1000MHz
OD_VDDGFX_OFFSET:
0mV
OD_RANGE:
SCLK:     500Mhz       3000Mhz
MCLK:     674Mhz       1200Mhz
";

const TABLE_7900XTX: &str = "OD_SCLK:
0: 500Mhz
1: 3000Mhz
OD_MCLK:
0: 97Mhz
1: 1250MHz
OD_VDDGFX_OFFSET:
0mV
OD_RANGE:
SCLK:     500Mhz       3500Mhz
MCLK:     97Mhz       1500Mhz
VDDGFX_OFFSET:    -450mv         0mv
";

const TABLE_7800XT: &str = "OD_SCLK:
0: 500Mhz
1: 2584Mhz
OD_MCLK:
0: 97Mhz
1: 1219MHz
OD_VDDGFX_OFFSET:
0mV
OD_RANGE:
SCLK:     500Mhz       3000Mhz
MCLK:     97Mhz       1500Mhz
VDDGFX_OFFSET:    -450mv         0mv
";

const TABLE_7900XT: &str = "OD_SCLK:
0: 500Mhz
1: 2900Mhz
OD_MCLK:
0: 97Mhz
1: 1250MHz
OD_VDDGFX_OFFSET:
0mV
OD_RANGE:
SCLK:     500Mhz       3500Mhz
MCLK:     97Mhz       1500Mhz
VDDGFX_OFFSET:    -450mv         0mv
";

fn arr_commands(commands: &[&str]) -> String {
    let mut output = commands.join("\n");
    output.push('\n');
    output
}

fn joined(commands: &[String]) -> String {
    let mut output = commands.join("\n");
    output.push('\n');
    output
}

#[test]
fn parse_5700xt_full() {
    let table = Table::from_str(TABLE_5700XT).unwrap();

    assert_eq!(table.current_sclk_range, Range::full(800, 2100));
    assert_eq!(table.current_mclk_range, Range::max(875));

    let vddc_curve = [(800, 711), (1450, 801), (2100, 1191)]
        .map(|(clockspeed, voltage)| ClocksLevel::new(clockspeed, voltage));
    assert_eq!(table.vddc_curve, vddc_curve);

    let curve_sclk_points = vec![
        Range::full(800, 2150),
        Range::full(800, 2150),
        Range::full(800, 2150),
    ];
    let curve_voltage_points = vec![
        Range::full(750, 1200),
        Range::full(750, 1200),
        Range::full(750, 1200),
    ];

    let od_range = OdRange {
        sclk: Range::full(800, 2150),
        mclk: Some(Range::full(625, 950)),
        curve_sclk_points,
        curve_voltage_points,
        voltage_offset: None,
    };
    assert_eq!(table.od_range, od_range);
}

#[test]
fn generic_actions_5700xt() {
    let mut table = Table::from_str(TABLE_5700XT).unwrap();
    assert_eq!(table.get_max_sclk(), Some(2100));
    assert_eq!(table.get_max_mclk(), Some(875));
    assert_eq!(table.get_max_sclk_voltage(), Some(1191));

    table.set_max_sclk(2050).unwrap();
    assert_eq!(table.get_max_sclk(), Some(2050));
    assert_eq!(table.current_sclk_range.max, Some(2050));

    table.set_max_mclk(950).unwrap();
    assert_eq!(table.get_max_mclk(), Some(950));
    assert_eq!(table.current_mclk_range.max, Some(950));

    table.set_max_voltage(1150).unwrap();
    assert_eq!(table.vddc_curve[2].voltage, 1150);

    let sclk_range = table.get_max_sclk_range();
    let mclk_range = table.get_max_mclk_range();
    let voltage_range = table.get_max_voltage_range();
    assert_eq!(sclk_range, Some(Range::full(800, 2150)));
    assert_eq!(mclk_range, Some(Range::full(625, 950)));
    assert_eq!(voltage_range, Some(Range::full(750, 1200)));
}

#[test]
fn write_commands_5700xt() {
    let mut table = Table::from_str(TABLE_5700XT).unwrap();

    table.set_max_sclk(2150).unwrap();
    table.set_min_sclk(850).unwrap();
    table.set_max_mclk(950).unwrap();
    table.set_max_voltage(1200).unwrap();

    let commands = joined(&table.get_commands(&table.clone().into()).unwrap());

    let expected_commands = arr_commands(&[
        "s 0 850",
        "s 1 2150",
        "m 1 950",
        "vc 0 850 711",
        "vc 1 1450 801",
        "vc 2 2150 1200",
    ]);

    assert_eq!(expected_commands, commands);
}

#[test]
fn normalize_vddc_curve_5700xt() {
    let mut table = Table::from_str(TABLE_5700XT).unwrap();
    let voltage_range = table.od_range.curve_voltage_points[0];
    assert!(table.vddc_curve.iter().any(|level| {
        level.voltage < voltage_range.min.unwrap() || level.voltage > voltage_range.max.unwrap()
    }));

    table.normalize_vddc_curve();

    assert!(!table.vddc_curve.iter().any(|level| {
        level.voltage < voltage_range.min.unwrap() || level.voltage > voltage_range.max.unwrap()
    }));
    assert_eq!(750, table.vddc_curve[0].voltage);
}

#[test]
fn write_commands_5500xt() {
    let mut table = Table::from_str(TABLE_5500XT).unwrap();
    table.clear();
    table.set_max_sclk(1900).unwrap();
    table.set_max_voltage(1140).unwrap();

    let commands = table.get_commands(&table.clone().into()).unwrap();
    let expected_commands = vec![
        "s 1 1900",
        "vc 0 500 710",
        "vc 1 1162 794",
        "vc 2 1900 1140",
    ];
    assert_eq!(expected_commands, commands);
}

#[test]
fn write_commands_custom_5700xt() {
    let table = Table {
        current_sclk_range: Range::empty(),
        current_mclk_range: Range::full(500, 1000),
        vddc_curve: vec![ClocksLevel::new(300, 600), ClocksLevel::new(1000, 1000)],
        voltage_offset: None,
        od_range: OdRange {
            sclk: Range::empty(),
            mclk: None,
            curve_sclk_points: Vec::new(),
            curve_voltage_points: Vec::new(),
            voltage_offset: None,
        },
    };

    let commands = joined(&table.get_commands(&table.clone().into()).unwrap());

    let expected_commands =
        arr_commands(&["m 0 500", "m 1 1000", "vc 0 300 600", "vc 1 1000 1000"]);

    assert_eq!(expected_commands, commands);
}

#[test]
fn generic_actions_6700xt() {
    let table = Table::from_str(TABLE_6700XT).unwrap();

    let max_sclk = table.get_max_sclk().unwrap();
    assert_eq!(max_sclk, 2725);
    let sclk_range = table.get_max_sclk_range().unwrap();
    assert_eq!(sclk_range, Range::full(500, 2800));

    let max_mclk = table.get_max_mclk().unwrap();
    assert_eq!(max_mclk, 1000);
    let mclk_range = table.get_max_mclk_range().unwrap();
    assert_eq!(mclk_range, Range::full(674, 1075));

    assert!(table.get_max_sclk_voltage().is_none());

    let current_sclk_range = table.get_current_sclk_range();
    assert_eq!(current_sclk_range, Range::full(500, 2725));

    let current_mclk_range = table.get_current_mclk_range();
    assert_eq!(current_mclk_range, Range::full(97, 1000));
}

#[test]
fn write_only_max_values_6700xt() {
    let mut table = Table::from_str(TABLE_6700XT).unwrap();

    table.clear();
    table.set_max_sclk(2800).unwrap();
    table.set_max_mclk(1075).unwrap();

    let commands = table.get_commands(&table.clone().into()).unwrap();
    assert_eq!(commands, vec!["s 1 2800", "m 1 1075"]);
}

#[test]
fn write_new_min_over_old_max_7900xt() {
    let previous_table = Table::from_str(TABLE_7900XT).unwrap();

    let mut new_table = previous_table.clone();
    new_table.clear();

    new_table.set_min_mclk(1350).unwrap();
    new_table.set_max_mclk(1350).unwrap();

    new_table.set_min_sclk(3000).unwrap();
    new_table.set_max_sclk(3000).unwrap();

    let commands = new_table.get_commands(&previous_table.into()).unwrap();
    assert_eq!(
        commands,
        vec!["s 1 3000", "s 0 3000", "s 1 3000", "m 1 1350", "m 0 1350", "m 1 1350"]
    );
}

#[test]
fn mclk_max_line_precedes_min_line_when_new_min_exceeds_old_max() {
    let mut previous = Table::from_str(TABLE_7900XT).unwrap();
    previous.current_mclk_range = Range::full(97, 1100);
    let mut table = previous.clone();
    table.clear();
    table.current_mclk_range = Range::full(1200, 1200);
    let commands = table.get_commands(&previous.clone().into()).unwrap();
    assert_eq!(commands, vec!["m 1 1200", "m 0 1200", "m 1 1200"]);

    table.current_mclk_range = Range::full(1000, 1200);
    let commands = table.get_commands(&previous.into()).unwrap();
    assert_eq!(commands, vec!["m 0 1000", "m 1 1200"]);
}

#[test]
fn set_max_values_6800() {
    let mut table = Table::from_str(TABLE_6800).unwrap();

    table.clear();
    table.set_max_sclk(2400).unwrap();
    assert!(table.set_max_sclk(2700).is_err());
    table.set_max_mclk(1050).unwrap();
    table.voltage_offset = Some(10);

    let commands = table.get_commands(&table.clone().into()).unwrap();
    assert_eq!(commands, vec!["s 1 2400", "m 1 1050", "vo 10"]);
}

#[test]
fn set_7800xt_voltage() {
    let mut table = Table::from_str(TABLE_7800XT).unwrap();
    table.set_voltage_offset(-300).unwrap();
    table.set_voltage_offset(100).unwrap_err();
}

#[test]
fn voltage_offset_without_range_is_accepted() {
    let mut table = Table::from_str(TABLE_6700XT).unwrap();
    assert_eq!(table.voltage_offset, Some(0));
    table.set_voltage_offset(-1000).unwrap();
    assert_eq!(table.voltage_offset, Some(-1000));
}

#[test]
fn set_voltage_without_curve_is_not_allowed() {
    let mut table = Table::from_str(TABLE_6700XT).unwrap();
    assert!(table.set_min_voltage_unchecked(1000).is_err());
    assert!(table.set_min_voltage(1000).is_err());
}

#[test]
fn unedited_gen2_commands_round_trip() {
    let table = ClocksTableGen::from_str(TABLE_7800XT).unwrap();
    assert!(matches!(table, ClocksTableGen::Vega20(_)));
    let commands = table.get_commands(&table.clone()).unwrap();
    assert_eq!(commands, vec!["s 0 500", "s 1 2584", "m 0 97", "m 1 1219", "vo 0"]);
    let text = format!(
        "OD_SCLK:\n0: {}Mhz\n1: {}Mhz\nOD_MCLK:\n0: {}Mhz\n1: {}MHz\nOD_VDDGFX_OFFSET:\n{}mV\nOD_RANGE:\nSCLK: 500Mhz 3000Mhz\n",
        &commands[0][4..],
        &commands[1][4..],
        &commands[2][4..],
        &commands[3][4..],
        &commands[4][3..],
    );
    let reparsed = Table::from_str(&text).unwrap();
    match table {
        ClocksTableGen::Vega20(parsed) => {
            assert_eq!(reparsed.current_sclk_range, parsed.current_sclk_range);
            assert_eq!(reparsed.current_mclk_range, parsed.current_mclk_range);
            assert_eq!(reparsed.voltage_offset, parsed.voltage_offset);
        }
        _ => unreachable!(),
    }
}

#[test]
fn mismatched_previous_format_is_not_allowed() {
    let table = Table::from_str(TABLE_6700XT).unwrap();
    let gen1 = ClocksTableGen::from_str("OD_SCLK:\n0: 300MHz 750mV\nOD_RANGE:\nSCLK: 300MHz 2000MHz\n").unwrap();
    assert!(table.get_commands(&gen1).is_err());
}

#[test]
fn gen2_missing_current_sclk_is_rejected() {
    assert!(Table::from_str("OD_RANGE:\nSCLK: 500Mhz 3000Mhz\n").is_err());
    assert!(Table::from_str("OD_SCLK:\n0: 500Mhz\nOD_RANGE:\nMCLK: 97Mhz 1500Mhz\n").is_err());
    assert!(Table::from_str("OD_SCLK:\n2: 500Mhz\nOD_RANGE:\nSCLK: 500Mhz 3000Mhz\n").is_err());
}

#[test]
fn detect_type_phoenix() {
    let table = ClocksTableGen::from_str(TABLE_PHOENIX).unwrap();
    match table {
        ClocksTableGen::Vega20(t) => {
            assert_eq!(t.current_sclk_range, Range::full(800, 2700));
            assert_eq!(t.current_mclk_range, Range::empty());
            assert!(t.vddc_curve.is_empty());
        }
        ClocksTableGen::Vega10(_) => panic!("expected the Vega20 format"),
    }
}

#[test]
fn parse_6800_full() {
    let table = Table::from_str(TABLE_6800).unwrap();
    assert_eq!(table.current_sclk_range, Range::full(500, 2475));
    assert_eq!(table.current_mclk_range, Range::full(97, 1000));
    assert_eq!(table.voltage_offset, Some(0));
    assert_eq!(table.od_range.sclk, Range::full(500, 2600));
    assert_eq!(table.od_range.voltage_offset, None);
}

#[test]
fn parse_7800xt_full() {
    let table = Table::from_str(TABLE_7800XT).unwrap();
    assert_eq!(table.current_sclk_range, Range::full(500, 2584));
    assert_eq!(table.current_mclk_range, Range::full(97, 1219));
    assert_eq!(table.voltage_offset, Some(0));
    assert_eq!(table.od_range.voltage_offset, Some(Range::full(-450, 0)));
    assert_eq!(table.od_range.mclk, Some(Range::full(97, 1500)));
}

#[test]
fn parse_6900xt_full() {
    let table = Table::from_str(TABLE_6900XT).unwrap();
    assert_eq!(table.current_sclk_range, Range::full(500, 2660));
    assert_eq!(table.current_mclk_range, Range::full(97, 1000));
    assert_eq!(table.voltage_offset, Some(0));
    assert!(table.vddc_curve.is_empty());
    assert_eq!(table.od_range.sclk, Range::full(500, 3000));
    assert_eq!(table.od_range.mclk, Some(Range::full(674, 1200)));
}

#[test]
fn write_commands_6900xt_default() {
    let table = Table::from_str(TABLE_6900XT).unwrap();
    let commands = table.get_commands(&table.clone().into()).unwrap();
    assert_eq!(commands, vec!["s 0 500", "s 1 2660", "m 0 97", "m 1 1000", "vo 0"]);
}

#[test]
fn write_commands_6900xt_custom() {
    let mut table = Table::from_str(TABLE_6900XT).unwrap();
    table.clear();

    table.set_min_sclk(800).unwrap();
    table.set_max_sclk(2400).unwrap();
    table.set_max_mclk(900).unwrap();
    assert!(table.set_min_voltage(1000).is_err());

    let commands = table.get_commands(&table.clone().into()).unwrap();
    assert_eq!(commands, vec!["s 0 800", "s 1 2400", "m 1 900"]);
}

#[test]
fn parse_6700xt_full() {
    let table = Table::from_str(TABLE_6700XT).unwrap();
    assert_eq!(table.current_sclk_range, Range::full(500, 2725));
    assert_eq!(table.current_mclk_range, Range::full(97, 1000));
    assert_eq!(table.voltage_offset, Some(0));
    assert_eq!(table.od_range.mclk, Some(Range::full(674, 1075)));
}

#[test]
fn parse_7900xtx_full() {
    let table = Table::from_str(TABLE_7900XTX).unwrap();
    assert_eq!(table.current_sclk_range, Range::full(500, 3000));
    assert_eq!(table.current_mclk_range, Range::full(97, 1250));
    assert_eq!(table.od_range.voltage_offset, Some(Range::full(-450, 0)));
}

#[test]
fn parse_7900xt_full() {
    let table = Table::from_str(TABLE_7900XT).unwrap();
    assert_eq!(table.current_sclk_range, Range::full(500, 2900));
    assert_eq!(table.current_mclk_range, Range::full(97, 1250));
    assert_eq!(table.voltage_offset, Some(0));
    assert_eq!(table.od_range.sclk, Range::full(500, 3500));
}

#[test]
fn parse_phoenix_full() {
    let table = Table::from_str(TABLE_PHOENIX).unwrap();
    assert_eq!(table.current_sclk_range, Range::full(800, 2700));
    assert_eq!(table.current_mclk_range, Range::empty());
    assert_eq!(table.od_range.mclk, None);
    assert_eq!(table.voltage_offset, None);
}

#[test]
fn voltage_offset_error_names_offset_and_bounds() {
    let mut table = Table::from_str(TABLE_7800XT).unwrap();
    let err = table.set_voltage_offset(100).unwrap_err();
    match err.kind {
        amdgpu_sysfs::error::ErrorKind::NotAllowed(msg) => assert_eq!(
            msg,
            "Provided voltage offset 100 is out of range, should be between -450 and 0"
        ),
        _ => panic!("expected NotAllowed"),
    }
    assert_eq!(table.voltage_offset, Some(0));
}
