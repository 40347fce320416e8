use blackhole_linux::chip::{
    config_path_text, format_bdf, lds_reset_poll_step, reset_board, ResetEvent, ResetPhase,
};
use blackhole_linux::clock::{
    frequency_solution, frequency_steps, set_frequency, PllCntl1, PllCntl5, PllRegisters, CNTL_1,
    CNTL_5,
};

#[test]
fn format_bdf_canonical_layout() {
    assert_eq!(format_bdf(0, 0x0100), "0000:01:00.0");
}

#[test]
fn format_bdf_widens_dev_and_func() {
    assert_eq!(format_bdf(0xabcd, 0xffff), "abcd:ff:1f.7");
}

#[test]
fn format_bdf_masks_out_extra_bits_in_bus_dev_fn() {
    assert_eq!(format_bdf(0, 0xdead_0100), "0000:01:00.0");
}

#[test]
fn config_space_is_found_by_the_sysfs_name() {
    assert_eq!(
        config_path_text(0, 0x0108),
        "/sys/bus/pci/devices/0000:01:01.0/config"
    );
}

#[test]
fn poll_step_initial_zero_does_not_complete() {
    let (done, saw) = lds_reset_poll_step(0b0000_0000, false);
    assert!(!done);
    assert!(!saw);
}

#[test]
fn poll_step_observes_assertion_and_keeps_waiting() {
    let (done, saw) = lds_reset_poll_step(0b0000_0010, false);
    assert!(!done);
    assert!(saw);
}

#[test]
fn poll_step_completes_on_release_after_seeing_assertion() {
    let (done, saw) = lds_reset_poll_step(0b0000_0000, true);
    assert!(done);
    assert!(saw);
}

#[test]
fn poll_step_does_not_complete_on_zero_without_prior_assertion() {
    let (done, saw) = lds_reset_poll_step(0b0000_0000, false);
    assert!(!done);
    assert!(!saw);
}

#[test]
fn poll_step_keeps_saw_asserted_sticky_under_assertion() {
    let (done, saw) = lds_reset_poll_step(0b0000_0010, true);
    assert!(!done);
    assert!(saw);
}

#[test]
fn poll_step_ignores_unrelated_bits_in_command_byte() {
    let (done_a, _) = lds_reset_poll_step(0b1111_1101, true);
    assert!(done_a, "bit 1 = 0 plus saw_asserted -> done");
    let (done_b, _) = lds_reset_poll_step(0b1111_1111, false);
    assert!(!done_b, "all other bits set, bit 1 also set -> waiting");
}

#[test]
fn a_reset_runs_through_its_phases() {
    let mut phase = ResetPhase::Identify;
    for event in [
        ResetEvent::Done,
        ResetEvent::Done,
        ResetEvent::Byte { byte: 0, late: false },
        ResetEvent::Byte { byte: 2, late: false },
    ] {
        phase = reset_board(phase, event);
    }
    assert_eq!(phase, ResetPhase::Poll { saw_asserted: true });
    phase = reset_board(phase, ResetEvent::Byte { byte: 0, late: false });
    assert_eq!(phase, ResetPhase::Restore);
    phase = reset_board(phase, ResetEvent::Done);
    assert_eq!(phase, ResetPhase::Complete);
    assert_eq!(reset_board(phase, ResetEvent::Failed), ResetPhase::Complete);
}

#[test]
fn a_reset_restores_the_state_when_its_time_is_over() {
    let phase = ResetPhase::Poll { saw_asserted: false };
    assert_eq!(
        reset_board(phase, ResetEvent::Byte { byte: 0, late: true }),
        ResetPhase::Restore
    );
    assert_eq!(reset_board(phase, ResetEvent::Failed), ResetPhase::Failed);
    assert_eq!(
        reset_board(ResetPhase::Failed, ResetEvent::Done),
        ResetPhase::Failed
    );
}

#[test]
fn frequency_solution_returns_known_values_for_200mhz() {
    assert_eq!(frequency_solution(200), (128, [15, 15, 15, 15]));
}

#[test]
fn frequency_solution_returns_known_values_for_1750mhz() {
    assert_eq!(frequency_solution(1750), (140, [1, 1, 1, 1]));
}

#[test]
fn frequency_solution_returns_known_values_for_15mhz() {
    assert_eq!(frequency_solution(15), (120, [99, 99, 99, 99]));
}

#[test]
fn pll_cntl1_roundtrip_preserves_fields() {
    for v in [0u32, 0xffff_ffff, 0xdead_beef, 0x1234_5678, 0x0001_0203] {
        assert_eq!(PllCntl1::from_u32(v).to_u32(), v);
    }
    let c = PllCntl1 {
        refdiv: 0x12,
        postdiv: 0x34,
        fbdiv: 0xabcd,
    };
    assert_eq!(c.to_u32(), 0xabcd_3412);
    let back = PllCntl1::from_u32(0xabcd_3412);
    assert_eq!(back.refdiv, 0x12);
    assert_eq!(back.postdiv, 0x34);
    assert_eq!(back.fbdiv, 0xabcd);
}

#[test]
fn pll_cntl5_roundtrip_preserves_postdivs() {
    for v in [0u32, 0xffff_ffff, 0x0102_0304] {
        assert_eq!(PllCntl5::from_u32(v).to_u32(), v);
    }
    let c = PllCntl5 {
        postdiv: [1, 2, 3, 4],
    };
    assert_eq!(c.to_u32(), 0x0403_0201);
}

fn pll_at(fbdiv: u16, postdiv: [u8; 4]) -> PllRegisters {
    let cntl1 = PllCntl1 {
        refdiv: 0,
        postdiv: 0,
        fbdiv,
    };
    PllRegisters::new(cntl1.to_u32(), PllCntl5 { postdiv }.to_u32())
}

#[test]
fn set_frequency_drives_pll_to_target_register_state() {
    let mut mock = pll_at(140, [1, 1, 1, 1]);

    set_frequency(&mut mock, 200);

    let final_cntl1 = PllCntl1::from_u32(mock.cntl1);
    assert_eq!(final_cntl1.fbdiv, 128, "fbdiv should land on target");
    let final_cntl5 = PllCntl5::from_u32(mock.cntl5);
    assert_eq!(final_cntl5.postdiv, [15, 15, 15, 15]);
}

#[test]
fn set_frequency_steps_postdiv_up_then_fbdiv_then_postdiv_down() {
    let mut mock = pll_at(140, [1, 1, 1, 1]);

    set_frequency(&mut mock, 200);

    let last_cntl5_up = mock.log.iter().rposition(|&(a, _)| a == CNTL_5);
    let first_cntl1 = mock.log.iter().position(|&(a, _)| a == CNTL_1);
    assert!(last_cntl5_up.is_some() && first_cntl1.is_some());
    assert!(
        last_cntl5_up.unwrap() < first_cntl1.unwrap(),
        "all CNTL5 writes must complete before fbdiv stepping starts"
    );
}

#[test]
fn every_step_from_1750_to_200_mhz_is_known() {
    let mut mock = PllRegisters::new(0x008c_0000, 0x0101_0101);
    set_frequency(&mut mock, 200);
    assert_eq!(mock.log.len(), 68);
    assert!(mock.log[..56].iter().all(|w| w.0 == CNTL_5));
    assert!(mock.log[56..].iter().all(|w| w.0 == CNTL_1));
    assert_eq!(mock.log[0], (CNTL_5, 0x0101_0102));
    assert_eq!(mock.log[67], (CNTL_1, 0x0080_0000));
    assert_eq!((mock.cntl1, mock.cntl5), (0x0080_0000, 0x0f0f_0f0f));
    set_frequency(&mut mock, 200);
    assert_eq!(mock.log.len(), 68);
}

#[test]
fn a_frequency_is_reached_from_anywhere() {
    for mhz in [15, 200, 1750] {
        let (fbdiv, postdiv) = frequency_solution(mhz);
        for (cntl1, cntl5) in [(0, 0), (0xffff_ffff, 0xffff_ffff), (0x0040_1234, 0x01ff_6307)] {
            let mut pll = PllRegisters::new(cntl1, cntl5);
            set_frequency(&mut pll, mhz);
            assert_eq!(pll.cntl1, (fbdiv as u32) << 16 | cntl1 & 0xffff);
            assert_eq!(pll.cntl5, u32::from_le_bytes(postdiv));
            let apart = |a: u8, b: u8| a.abs_diff(b) as usize;
            let steps = fbdiv.abs_diff((cntl1 >> 16) as u16) as usize
                + (0..4).map(|i| apart(cntl5.to_le_bytes()[i], postdiv[i])).sum::<usize>();
            assert_eq!(pll.log.len(), steps);
        }
    }
}

#[test]
fn set_frequency_to_already_current_target_is_idempotent() {
    let (target_fbdiv, target_postdiv) = frequency_solution(200);
    let mut mock = pll_at(target_fbdiv, target_postdiv);

    set_frequency(&mut mock, 200);

    assert!(
        mock.log.is_empty(),
        "expected zero PLL writes at already-target state, got {:?}",
        mock.log
    );
    let final_cntl1 = PllCntl1::from_u32(mock.cntl1);
    assert_eq!(final_cntl1.fbdiv, target_fbdiv);
    let final_cntl5 = PllCntl5::from_u32(mock.cntl5);
    assert_eq!(final_cntl5.postdiv, target_postdiv);
}

#[test]
fn the_steps_up_end_with_lower_post_dividers() {
    let slow = pll_at(128, [15, 15, 15, 15]);
    let writes = frequency_steps(slow.cntl1, slow.cntl5, 1750);
    let last_cntl1 = writes.iter().rposition(|&(a, _)| a == CNTL_1).unwrap();
    let first_cntl5 = writes.iter().position(|&(a, _)| a == CNTL_5).unwrap();
    assert!(last_cntl1 < first_cntl5);
    assert_eq!(writes[last_cntl1].1, 140 << 16);
    assert_eq!(writes.last(), Some(&(CNTL_5, 0x0101_0101)));
}
