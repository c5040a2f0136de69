use comp76fx_core::editor::style::{rgb_channels, Ink};
use comp76fx_core::editor::track_out;
use comp76fx_core::dsp::Finish;
use comp76fx_core::params::Oversampling;
use comp76fx_core::plugin::{channel_seed, BufferPlan, Transport, CONTROL_BLOCK, LATENCY};

#[test]
fn a_buffer_changes_only_what_changed() {
    let mut transport = Transport::new();
    assert_eq!(
        transport.begin_buffer(Oversampling::X4, true),
        BufferPlan { retune: None, switch_off: false, publish: true }
    );
    assert_eq!(
        transport.begin_buffer(Oversampling::X8, true),
        BufferPlan { retune: Some(8), switch_off: false, publish: true }
    );
    assert_eq!(
        transport.begin_buffer(Oversampling::X8, false),
        BufferPlan { retune: None, switch_off: true, publish: false }
    );
    // Staying off clears nothing more.
    assert_eq!(
        transport.begin_buffer(Oversampling::X8, false),
        BufferPlan { retune: None, switch_off: false, publish: false }
    );
    assert_eq!(
        transport.begin_buffer(Oversampling::Off, true),
        BufferPlan { retune: Some(1), switch_off: false, publish: true }
    );
    assert_eq!(CONTROL_BLOCK, 32);
    assert_eq!(LATENCY, 74);
}

#[test]
fn each_channel_gets_its_own_seed() {
    assert_eq!(channel_seed(0), 0x9e37_79b9);
    assert_eq!(channel_seed(1), 0x9e37_79b9u32.wrapping_add(0x85eb_ca6b));
    assert_ne!(channel_seed(0), channel_seed(1));
}

#[test]
fn lettering_is_inked_for_its_panel() {
    let silver = Ink::for_finish(Finish::SilverFace);
    assert_eq!(silver.text, (0x1c, 0x1e, 0x20));
    assert_eq!(silver.relief, (0xff, 0xff, 0xff, 130));
    let black = Ink::for_finish(Finish::BlackFace);
    assert_eq!(black, Ink::for_finish(Finish::BlueStripe));
    assert_eq!(black.dim, (0xb4, 0xba, 0xc2));
    assert_eq!(black.relief, (0, 0, 0, 150));
}

#[test]
fn colours_split_into_their_bytes() {
    assert_eq!(rgb_channels(0x1d4f7a), (0x1d, 0x4f, 0x7a));
    assert_eq!(rgb_channels(0xff_c4c8cc), (0xc4, 0xc8, 0xcc));
}

#[test]
fn engraved_lettering_is_spaced_out() {
    assert_eq!(track_out("RATIO"), "R\u{2009}A\u{2009}T\u{2009}I\u{2009}O");
    assert_eq!(track_out("A"), "A");
    assert_eq!(track_out(""), "");
}

#[test]
fn the_power_going_off_clears_once() {
    let mut transport = Transport::new();
    let on = transport.begin_buffer(Oversampling::X4, true);
    assert!(!on.switch_off && on.publish && on.retune.is_none());
    let off = transport.begin_buffer(Oversampling::X4, false);
    assert!(off.switch_off && !off.publish);
    let still_off = transport.begin_buffer(Oversampling::X4, false);
    assert!(!still_off.switch_off && !still_off.publish);
}
