use cpr_ihex::commands::CommandOutput;
use cpr_ihex::commands::RunCommandErr;
use cpr_ihex::commands::check_file;
use cpr_ihex::commands::run_commands;
use cpr_ihex::file::IHexFile;

fn parsed_file() -> IHexFile {
    let lines: Vec<String> = vec![
        ":020000000102FB".to_string(), // data [0x01, 0x02] at address 0
        ":00000001FF".to_string(),
    ];
    IHexFile::read(&lines).expect("file must parse")
}

#[test]
fn no_command_requested_runs_nothing() {
    let file = parsed_file();
    let ran = run_commands(false, false, Some(&file)).expect("nothing to fail");
    assert!(ran.is_none());
}

#[test]
fn commands_need_a_file() {
    assert!(matches!(
        run_commands(true, false, None),
        Err(RunCommandErr::FileNotProvided)
    ));
    assert!(matches!(
        run_commands(false, true, None),
        Err(RunCommandErr::FileNotProvided)
    ));
}

#[test]
fn check_file_passes_the_file_through() {
    let file = parsed_file();
    assert!(check_file(Some(&file)).is_ok());
    assert!(matches!(
        check_file(None),
        Err(RunCommandErr::FileNotProvided)
    ));
}

#[test]
fn bindump_yields_the_flat_image() {
    let file = parsed_file();
    let out = run_commands(false, true, Some(&file)).expect("command must run");
    match out {
        Some(CommandOutput::Bindump(bytes)) => assert_eq!(bytes, vec![0x01, 0x02]),
        other => panic!("expected a binary dump, got {:?}", other),
    }
}

#[test]
fn hexdump_renders_like_pretty_hex() {
    let file = parsed_file();
    let out = run_commands(true, false, Some(&file)).expect("command must run");
    match out {
        Some(CommandOutput::Hexdump(text)) => {
            assert_eq!(text, pretty_hex::pretty_hex(&vec![0x01u8, 0x02u8]));
        }
        other => panic!("expected a hexdump, got {:?}", other),
    }
}

#[test]
fn hexdump_wins_over_bindump() {
    let file = parsed_file();
    let out = run_commands(true, true, Some(&file)).expect("command must run");
    assert!(matches!(out, Some(CommandOutput::Hexdump(_))));
}
