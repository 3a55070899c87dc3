use cpu_sim::vcd_analyzer::{analyze_commands, analyze_vcd, VcdCommand};

const SAMPLE_VCD: &str = "$timescale 1ps $end
$scope module top $end
$var wire 1 ! clk $end
$var wire 1 \" dmem_we $end
$var wire 1 # dmem_re $end
$var wire 1 $ instr_complete $end
$scope module core $end
$var wire 32 % debug_pc $end
$upscope $end
$upscope $end
$enddefinitions $end
#0
0!
b10000000000000000000000000000100 %
#1
1!
1\"
1$
#2
0!
0\"
0$
b10000000000000000000000000000000 %
#3
1!
1#
1$
#4
0!
bx %
b10000000000000000000000000000100 %
#7
1!
";

#[test]
fn test_analyze_vcd_counts() {
    let stats = analyze_vcd(SAMPLE_VCD.as_bytes()).expect("the dump parses");
    assert_eq!(stats.total_cycles, 3);
    assert_eq!(stats.clock_transitions, 3);
    assert_eq!(stats.total_instructions, 2);
    assert_eq!(stats.memory_writes, 1);
    assert_eq!(stats.memory_reads, 1);
    assert_eq!(stats.max_timestamp, 7);
    assert_eq!(stats.unique_pcs, vec![0x8000_0000, 0x8000_0004]);
    assert_eq!(stats.pc_range, (0x8000_0000, 0x8000_0004));
    assert!(stats.instruction_distribution.is_empty());
}

#[test]
fn test_analyze_vcd_without_signals() {
    let vcd = "$scope module top $end
$var wire 1 ! other $end
$upscope $end
$enddefinitions $end
#5
1!
";
    let stats = analyze_vcd(vcd.as_bytes()).expect("the dump parses");
    assert_eq!(stats.total_cycles, 0);
    assert_eq!(stats.max_timestamp, 5);
    assert!(stats.unique_pcs.is_empty());
    assert_eq!(stats.pc_range, (0, 0));
}

#[test]
fn test_analyze_vcd_bad_header() {
    let r = analyze_vcd(b"$scope module top $end\n#1\n");
    match r {
        Err(message) => assert!(message.starts_with("Failed to parse VCD header")),
        Ok(_) => panic!("a header without $enddefinitions must be refused"),
    }
}

#[test]
fn test_analyze_vcd_bad_command() {
    let r = analyze_vcd(b"$enddefinitions $end\n#1\n?\n");
    match r {
        Err(message) => assert!(message.starts_with("Failed to parse VCD command")),
        Ok(_) => panic!("an unknown command must be refused"),
    }
}

#[test]
fn test_analyze_vcd_wide_pc_refused() {
    let vcd = "$var wire 40 % debug_pc $end
$enddefinitions $end
b1000000000000000000000000000000000000000 %
";
    assert!(analyze_vcd(vcd.as_bytes()).is_err());
}

#[test]
fn test_analyze_commands_last_declaration_wins() {
    let cmds = vec![
        VcdCommand::VarDef { code: "a".to_string(), reference: "clk".to_string() },
        VcdCommand::VarDef { code: "b".to_string(), reference: "clk".to_string() },
        VcdCommand::Enddefinitions,
        VcdCommand::ChangeScalar { code: "a".to_string(), value: b"1".to_vec() },
        VcdCommand::ChangeScalar { code: "b".to_string(), value: b"1".to_vec() },
        VcdCommand::ChangeScalar { code: "b".to_string(), value: b"0".to_vec() },
        VcdCommand::ChangeScalar { code: "b".to_string(), value: b"1".to_vec() },
        VcdCommand::Timestamp(9),
        VcdCommand::Other,
    ];
    let stats = analyze_commands(&cmds);
    assert_eq!(stats.total_cycles, 2);
    assert_eq!(stats.max_timestamp, 9);
}

#[test]
fn test_analyze_commands_clock_x_is_not_low() {
    let cmds = vec![
        VcdCommand::VarDef { code: "c".to_string(), reference: "clk".to_string() },
        VcdCommand::Enddefinitions,
        VcdCommand::ChangeScalar { code: "c".to_string(), value: b"x".to_vec() },
        VcdCommand::ChangeScalar { code: "c".to_string(), value: b"1".to_vec() },
        VcdCommand::ChangeScalar { code: "c".to_string(), value: b"0".to_vec() },
        VcdCommand::ChangeScalar { code: "c".to_string(), value: b"1".to_vec() },
    ];
    assert_eq!(analyze_commands(&cmds).total_cycles, 1);
}

#[test]
fn test_analyze_commands_top_pc_value() {
    let cmds = vec![
        VcdCommand::VarDef { code: "p".to_string(), reference: "debug_pc".to_string() },
        VcdCommand::Enddefinitions,
        VcdCommand::ChangeVector { code: "p".to_string(), value: vec![b'1'; 32] },
    ];
    let stats = analyze_commands(&cmds);
    assert_eq!(stats.unique_pcs, vec![0xFFFF_FFFF]);
    // A lowest PC of 0xFFFF_FFFF reads as no range.
    assert_eq!(stats.pc_range, (0, 0));
}
