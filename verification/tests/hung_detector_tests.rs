use cpu_sim::hung_detector::{fsm_state_name, HungDetector, HungDetectorConfig, HungStateError};

#[test]
fn test_pc_stuck_detection() {
    let mut detector = HungDetector::new_default();

    // Simulate same PC being executed repeatedly (instruction_complete=true)
    for i in 0..49 {
        let result = detector.check_cycle(i, 0x8000_0000, 0x00000013, 2, true);
        assert!(result.is_ok(), "Should not detect hang at iteration {}", i);
    }

    // 50th iteration should trigger hang detection
    let result = detector.check_cycle(50, 0x8000_0000, 0x00000013, 2, true);
    assert!(result.is_err(), "Should detect PC stuck at threshold");

    match result {
        Err(HungStateError::PcStuck { pc, count, .. }) => {
            assert_eq!(pc, 0x8000_0000);
            assert_eq!(count, 50);
        }
        _ => panic!("Expected PcStuck error"),
    }
}

#[test]
fn test_pc_stuck_reset_on_change() {
    let mut detector = HungDetector::new_default();

    // Execute same PC multiple times
    for i in 0..30 {
        let result = detector.check_cycle(i, 0x8000_0000, 0x00000013, 2, true);
        assert!(result.is_ok());
    }

    // Change PC (should reset counter)
    let result = detector.check_cycle(30, 0x8000_0004, 0x00000013, 2, true);
    assert!(result.is_ok());

    // Go back to original PC - counter should be reset
    for i in 31..80 {
        let result = detector.check_cycle(i, 0x8000_0000, 0x00000013, 2, true);
        assert!(result.is_ok());
    }

    // Should trigger at 50 after reset
    let result = detector.check_cycle(80, 0x8000_0000, 0x00000013, 2, true);
    assert!(result.is_err());
}

#[test]
fn test_reset() {
    let mut detector = HungDetector::new_default();

    // Build up some state
    for i in 0..30 {
        let _ = detector.check_cycle(i, 0x8000_0000, 0x00000013, 2, true);
    }

    assert_eq!(detector.pc_stuck_count(), 30);
    assert!(!detector.pc_history().is_empty());

    // Reset should clear detector state
    detector.reset();

    assert_eq!(detector.pc_stuck_count(), 0);
    assert!(detector.pc_history().is_empty());
    assert!(detector.last_pc().is_none());
}

#[test]
fn test_long_instruction_detection() {
    let config = HungDetectorConfig {
        max_cycles_per_instruction: 100,
        enable_pc_loop_detection: false,
        ..Default::default()
    };

    let mut detector = HungDetector::new(config);

    // Simulate instruction taking many cycles without completing
    for cycle in 0..100u64 {
        let result = detector.check_cycle(cycle, 0x8000_0000, 0x00000013, 3, false);
        assert!(result.is_ok(), "Should not detect hang at cycle {}", cycle);
    }

    // Cycle 101 should trigger long instruction detection
    let result = detector.check_cycle(101, 0x8000_0000, 0x00000013, 3, false);
    assert!(result.is_err(), "Should detect long instruction");

    match result {
        Err(HungStateError::LongInstruction {
            pc,
            cycle_count,
            fsm_state,
            ..
        }) => {
            assert_eq!(pc, 0x8000_0000);
            assert!(cycle_count > 100);
            assert_eq!(fsm_state, 3);
        }
        _ => panic!("Expected LongInstruction error"),
    }
}

// Further scenarios of the library's own contracts.

#[test]
fn test_pc_stuck_history_is_bounded() {
    let config = HungDetectorConfig {
        pc_stuck_threshold: 1000,
        pc_history_size: 3,
        ..Default::default()
    };
    let mut detector = HungDetector::new(config);
    for (i, pc) in [0x10u32, 0x14, 0x18, 0x1c, 0x20].iter().enumerate() {
        assert!(detector.check_cycle(i as u64, *pc, 0x13, 2, true).is_ok());
    }
    assert_eq!(detector.pc_history(), vec![0x18, 0x1c, 0x20]);
    assert_eq!(detector.last_pc(), Some(0x20));
    assert_eq!(detector.pc_stuck_count(), 1);
}

#[test]
fn test_pc_stuck_reports_history() {
    let config = HungDetectorConfig {
        pc_stuck_threshold: 3,
        enable_long_instruction_detection: false,
        ..Default::default()
    };
    let mut detector = HungDetector::new(config);
    assert!(detector.check_cycle(0, 0x40, 0x6f, 2, true).is_ok());
    assert!(detector.check_cycle(1, 0x40, 0x6f, 2, true).is_ok());
    match detector.check_cycle(2, 0x40, 0x6f, 2, true) {
        Err(HungStateError::PcStuck { pc, instruction, count, history }) => {
            assert_eq!(pc, 0x40);
            assert_eq!(instruction, 0x6f);
            assert_eq!(count, 3);
            assert_eq!(history, vec![0x40, 0x40, 0x40]);
        }
        _ => panic!("Expected PcStuck error"),
    }
}

#[test]
fn test_detection_can_be_disabled() {
    let config = HungDetectorConfig {
        enable_pc_loop_detection: false,
        enable_long_instruction_detection: false,
        ..Default::default()
    };
    let mut detector = HungDetector::new(config);
    for i in 0..200u64 {
        assert!(detector.check_cycle(i, 0x8000_0000, 0x13, 2, true).is_ok());
        assert!(detector.check_cycle(i, 0x8000_0000, 0x13, 2, false).is_ok());
    }
}

#[test]
fn test_fsm_state_names() {
    assert_eq!(fsm_state_name(0), "IDLE");
    assert_eq!(fsm_state_name(1), "FETCH");
    assert_eq!(fsm_state_name(6), "MEM_WRITE");
    assert_eq!(fsm_state_name(10), "HALT");
    assert_eq!(fsm_state_name(200), "UNKNOWN");
}

#[test]
fn test_default_config_values() {
    let config = HungDetectorConfig::default();
    assert_eq!(config.pc_stuck_threshold, 50);
    assert_eq!(config.max_cycles_per_instruction, 10000);
    assert!(config.enable_pc_loop_detection);
    assert!(config.enable_long_instruction_detection);
}
