use amdgpu_sysfs::gpu_handle::power_profile_mode::PowerProfileModesTable;

const TABLE_VEGA56: &str = "NUM        MODE_NAME BUSY_SET_POINT FPS USE_RLC_BUSY MIN_ACTIVE_LEVEL
  0 BOOTUP_DEFAULT*:             70  60          0              0
  1 3D_FULL_SCREEN :             70  60          1              3
  2   POWER_SAVING :             90  60          0              0
  3          VIDEO :             70  60          0              0
  4             VR :             70  90          0              0
  5        COMPUTE :             30  60          0              6
  6         CUSTOM :              0   0          0              0
";

const TABLE_RX580: &str = "NUM        MODE_NAME     SCLK_UP_HYST   SCLK_DOWN_HYST SCLK_ACTIVE_LEVEL     MCLK_UP_HYST   MCLK_DOWN_HYST MCLK_ACTIVE_LEVEL
  0   BOOTUP_DEFAULT:        -                -                -                -                -                -
  1 3D_FULL_SCREEN *:        0              100               30                0              100               10
  2     POWER_SAVING:       10                0               30                -                -                -
  3            VIDEO:        -                -                -               10               16               31
  4               VR:        0               11               50                0              100               10
  5          COMPUTE:        0                5               30                -                -                -
  6           CUSTOM:        -                -                -                -                -                -
";

const TABLE_4800H: &str = " 0 BOOTUP_DEFAULT
 1 3D_FULL_SCREEN
 2 POWER_SAVING
 3 VIDEO*
 4 VR
 5 COMPUTE
 6 CUSTOM
";

const TABLE_RX6900XT: &str = "PROFILE_INDEX(NAME) CLOCK_TYPE(NAME) FPS MinFreqType MinActiveFreqType MinActiveFreq BoosterFreqType BoosterFreq PD_Data_limit_c PD_Data_error_coeff PD_Data_error_rate_coeff
 0 BOOTUP_DEFAULT*:
                    0(       GFXCLK)       0       5       1       0       4     800 4587520  -65536       0
                    1(       SOCCLK)       0       5       1       0       1       0 3276800   -6553 -65536
 1 3D_FULL_SCREEN :
                    0(       GFXCLK)       0       5       1       0       4     650  327680   -6553  -65536
                    1(       SOCCLK)       0       5       1       0       1       0 3276800   -6553 -65536
 6 CUSTOM :
                    0(       GFXCLK)       -       -       -       -       -       -       -       -       -
                    1(       SOCCLK)       -       -       -       -       -       -       -       -       -
";

const TABLE_RX7700S: &str = "                          0 BOOTUP_DEFAULT*     1 3D_FULL_SCREEN     2 POWER_SAVING     3 CUSTOM
FPS                                     0                   1                  0            0
UseRlcBusy                              0                   1                  1            0
";

#[test]
fn power_profile_mode_parse_full_vega56() {
    let table = PowerProfileModesTable::parse(TABLE_VEGA56).unwrap();
    assert_eq!(table.active, 0);
    assert_eq!(table.modes.len(), 7);
    assert_eq!(table.modes[&0].name, "BOOTUP_DEFAULT");
    assert_eq!(table.modes[&1].name, "3D_FULL_SCREEN");
    assert_eq!(
        table.value_names,
        vec!["BUSY_SET_POINT", "FPS", "USE_RLC_BUSY", "MIN_ACTIVE_LEVEL"]
    );
    assert_eq!(table.modes[&5].components[0].values, vec![Some(30), Some(60), Some(0), Some(6)]);
    assert!(table.modes[&6].is_custom());
}

#[test]
fn power_profile_mode_parse_full_rx580() {
    let table = PowerProfileModesTable::parse(TABLE_RX580).unwrap();
    assert_eq!(table.active, 1);
    assert_eq!(table.modes[&1].name, "3D_FULL_SCREEN");
    assert_eq!(
        table.modes[&1].components[0].values,
        vec![Some(0), Some(100), Some(30), Some(0), Some(100), Some(10)]
    );
    assert_eq!(
        table.modes[&2].components[0].values,
        vec![Some(10), Some(0), Some(30), None, None, None]
    );
    assert_eq!(table.value_names.len(), 6);
}

#[test]
fn power_profile_mode_parse_full_internal_4800h() {
    let table = PowerProfileModesTable::parse(TABLE_4800H).unwrap();
    assert_eq!(table.active, 3);
    assert_eq!(table.modes.len(), 7);
    assert_eq!(table.modes[&3].name, "VIDEO");
    assert!(table.modes[&3].components.is_empty());
    assert!(table.value_names.is_empty());
}

#[test]
fn parse_full_rx6900xt() {
    let table = PowerProfileModesTable::parse(TABLE_RX6900XT).unwrap();
    assert_eq!(table.active, 0);
    assert_eq!(table.modes.len(), 3);
    let default = &table.modes[&0];
    assert_eq!(default.name, "BOOTUP_DEFAULT");
    assert_eq!(default.components.len(), 2);
    assert_eq!(default.components[0].clock_type.as_deref(), Some("GFXCLK"));
    assert_eq!(default.components[1].clock_type.as_deref(), Some("SOCCLK"));
    assert_eq!(default.components[1].values[8], Some(-65536));
    assert_eq!(table.modes[&6].components[0].values, vec![None; 9]);
    assert_eq!(table.value_names.len(), 9);
}

#[test]
fn parse_full_rx7700s() {
    let table = PowerProfileModesTable::parse(TABLE_RX7700S).unwrap();
    assert_eq!(table.active, 0);
    assert_eq!(table.modes.len(), 4);
    assert_eq!(table.modes[&0].name, "BOOTUP_DEFAULT");
    assert_eq!(table.modes[&1].components.len(), 2);
    assert_eq!(table.modes[&1].components[0].values, vec![Some(1)]);
    assert_eq!(table.value_names, vec!["FPS", "UseRlcBusy"]);
}

#[test]
fn no_active_mode_is_rejected() {
    let text = TABLE_VEGA56.replace("BOOTUP_DEFAULT*:", "BOOTUP_DEFAULT :");
    assert!(PowerProfileModesTable::parse(&text).is_err());
    let text = TABLE_4800H.replace("VIDEO*", "VIDEO");
    assert!(PowerProfileModesTable::parse(&text).is_err());
}

#[test]
fn two_active_modes_are_rejected() {
    let text = TABLE_VEGA56.replace("VR :", "VR*:");
    assert!(PowerProfileModesTable::parse(&text).is_err());
    let text = TABLE_RX7700S.replace("CUSTOM", "CUSTOM*");
    assert!(PowerProfileModesTable::parse(&text).is_err());
    let text = TABLE_RX6900XT.replace("3D_FULL_SCREEN :", "3D_FULL_SCREEN*:");
    assert!(PowerProfileModesTable::parse(&text).is_err());
}

#[test]
fn absent_value_differs_from_zero() {
    let table = PowerProfileModesTable::parse(TABLE_RX580).unwrap();
    let values = &table.modes[&3].components[0].values;
    assert_eq!(values[0], None);
    assert_ne!(values[0], Some(0));
    let table = PowerProfileModesTable::parse(TABLE_VEGA56).unwrap();
    assert_eq!(table.modes[&6].components[0].values[0], Some(0));
}

#[test]
fn unknown_header_is_rejected() {
    assert!(PowerProfileModesTable::parse("HELLO WORLD\n0 A*\n").is_err());
    assert!(PowerProfileModesTable::parse("").is_err());
}

#[test]
fn custom_heuristics_single_component() {
    let table = PowerProfileModesTable::parse(TABLE_VEGA56).unwrap();
    let commands = table
        .custom_heuristics_commands(&vec![vec![Some(10), None, Some(-1), Some(0)]])
        .unwrap();
    assert_eq!(commands, vec!["6 10 - -1 0"]);
    assert!(table.custom_heuristics_commands(&vec![vec![], vec![]]).is_err());
}

#[test]
fn custom_heuristics_per_component() {
    let table = PowerProfileModesTable::parse(TABLE_RX6900XT).unwrap();
    let commands = table
        .custom_heuristics_commands(&vec![vec![Some(1), None], vec![None, Some(2)]])
        .unwrap();
    assert_eq!(commands, vec!["6 0 1 -", "6 1 - 2"]);
}

#[test]
fn custom_heuristics_need_a_custom_profile() {
    let table = PowerProfileModesTable::parse(" 0 A*\n 1 B\n").unwrap();
    assert!(table.custom_heuristics_commands(&vec![]).is_err());
}

#[test]
fn parse_header_vega56() {
    let text = "NUM        MODE_NAME BUSY_SET_POINT FPS USE_RLC_BUSY MIN_ACTIVE_LEVEL\n  0 BOOTUP_DEFAULT*: 70 60 0 0\n";
    let table = PowerProfileModesTable::parse(text).unwrap();
    assert_eq!(
        table.value_names,
        ["BUSY_SET_POINT", "FPS", "USE_RLC_BUSY", "MIN_ACTIVE_LEVEL"]
    );
}

#[test]
fn parse_header_rx580() {
    let text = "NUM        MODE_NAME     SCLK_UP_HYST   SCLK_DOWN_HYST SCLK_ACTIVE_LEVEL     MCLK_UP_HYST   MCLK_DOWN_HYST MCLK_ACTIVE_LEVEL\n  0 BOOTUP_DEFAULT*: - - - - - -\n";
    let table = PowerProfileModesTable::parse(text).unwrap();
    assert_eq!(
        table.value_names,
        [
            "SCLK_UP_HYST",
            "SCLK_DOWN_HYST",
            "SCLK_ACTIVE_LEVEL",
            "MCLK_UP_HYST",
            "MCLK_DOWN_HYST",
            "MCLK_ACTIVE_LEVEL"
        ]
    );
}

#[test]
fn mod_parse_full_vega56() {
    let table = PowerProfileModesTable::parse(TABLE_VEGA56).unwrap();
    assert_eq!(table.active, 0);
    assert_eq!(table.modes[&2].name, "POWER_SAVING");
    assert_eq!(table.modes[&2].components[0].values, vec![Some(90), Some(60), Some(0), Some(0)]);
}

#[test]
fn mod_parse_full_rx580() {
    let table = PowerProfileModesTable::parse(TABLE_RX580).unwrap();
    assert_eq!(table.active, 1);
    assert_eq!(table.modes[&0].components[0].values, vec![None; 6]);
}

#[test]
fn mod_parse_full_internal_4800h() {
    let table = PowerProfileModesTable::parse(TABLE_4800H).unwrap();
    assert_eq!(table.active, 3);
    assert_eq!(table.modes[&6].name, "CUSTOM");
}

#[test]
fn parse_full_rx7800xt() {
    let text = TABLE_RX6900XT.replace("BOOTUP_DEFAULT*:", "BOOTUP_DEFAULT :").replace("6 CUSTOM :", "6 CUSTOM*:");
    let table = PowerProfileModesTable::parse(&text).unwrap();
    assert_eq!(table.active, 6);
    assert!(table.modes[&6].is_custom());
    assert_eq!(table.modes[&1].components[0].values[5], Some(650));
}

#[test]
fn flat_dash_and_zero() {
    let table = PowerProfileModesTable::parse("NUM MODE_NAME A B\n0 BOOTUP_DEFAULT*: - 0").unwrap();
    assert_eq!(table.active, 0);
    assert_eq!(table.value_names, vec!["A", "B"]);
    assert_eq!(table.modes[&0].name, "BOOTUP_DEFAULT");
    assert_eq!(table.modes[&0].components[0].values, vec![None, Some(0)]);
}

#[test]
fn nested_dash_and_zero() {
    let table = PowerProfileModesTable::parse(
        "PROFILE_INDEX(NAME) CLOCK_TYPE(NAME) A B\n0 BOOTUP_DEFAULT*:\n0( GFXCLK) - 0",
    )
    .unwrap();
    assert_eq!(table.active, 0);
    assert_eq!(table.value_names, vec!["A", "B"]);
    let components = &table.modes[&0].components;
    assert_eq!(components.len(), 1);
    assert_eq!(components[0].clock_type.as_deref(), Some("GFXCLK"));
    assert_eq!(components[0].values, vec![None, Some(0)]);
}

#[test]
fn unknown_header_is_unsupported() {
    let err = PowerProfileModesTable::parse("FOO BAR\n0 BOOTUP_DEFAULT*").unwrap_err();
    assert!(matches!(err.kind, amdgpu_sysfs::error::ErrorKind::Unsupported(_)));
}

#[test]
fn rotated_column_without_mode_is_rejected() {
    let text = "0 A* 1 B\nFPS 1 2 3\n";
    assert!(PowerProfileModesTable::parse(text).is_err());
    let text = "0 A* 1 B\nFPS 1 -\n";
    assert!(PowerProfileModesTable::parse(text).is_err());
}
