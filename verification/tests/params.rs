use comp76fx_core::params::{power_text, power_value, switch_text, switch_value, MeterMode, Oversampling};

#[test]
fn each_quality_setting_has_its_factor() {
    assert_eq!(Oversampling::Off.factor(), 1);
    assert_eq!(Oversampling::X2.factor(), 2);
    assert_eq!(Oversampling::X4.factor(), 4);
    assert_eq!(Oversampling::X8.factor(), 8);
    assert_ne!(MeterMode::Plus4, MeterMode::Plus8);
}

#[test]
fn the_ratio_switches_read_in_and_out() {
    assert_eq!(switch_text(true), "In");
    assert_eq!(switch_text(false), "Out");
    for typed in ["out", " OUT ", "Off", "false", "no", "0", "\tNo\n"] {
        assert_eq!(switch_value(typed), Some(false), "{typed:?}");
    }
    for typed in ["in", "In", "on", "yes", "1", "", "outside"] {
        assert_eq!(switch_value(typed), Some(true), "{typed:?}");
    }
    assert_eq!(switch_value(&switch_text(true)), Some(true));
    assert_eq!(switch_value(&switch_text(false)), Some(false));
}

#[test]
fn the_power_switch_reads_on_and_off() {
    assert_eq!(power_text(true), "On");
    assert_eq!(power_text(false), "Off");
    for typed in ["off", " OFF", "False", "no", "0"] {
        assert_eq!(power_value(typed), Some(false), "{typed:?}");
    }
    // "out" is not one of the power switch's words.
    for typed in ["on", "out", "1", "yes"] {
        assert_eq!(power_value(typed), Some(true), "{typed:?}");
    }
    assert_eq!(power_value(&power_text(false)), Some(false));
}
