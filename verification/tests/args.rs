use wordcount::args::{args_is_empty, get_path, parse_args_to_command, Commands};
use wordcount::error::WcError;

fn strings(items: &[&str]) -> Vec<String> {
    let mut out: Vec<String> = Vec::new();
    for item in items {
        out.push(item.to_string());
    }
    out
}

#[test]
fn no_arguments_is_a_usage_error() {
    let args: Vec<String> = Vec::new();
    assert_eq!(args_is_empty(&args), Err(WcError::Usage));
}

#[test]
fn some_arguments_pass() {
    assert_eq!(args_is_empty(&strings(&["file.txt"])), Ok(()));
    assert_eq!(args_is_empty(&strings(&["-w", "file.txt"])), Ok(()));
    assert_eq!(args_is_empty(&strings(&[""])), Ok(()));
}

#[test]
fn path_is_the_last_argument() {
    let mut args = strings(&["-w", "file.txt"]);
    assert_eq!(get_path(&mut args, true), Ok("file.txt".to_string()));
    assert_eq!(args, strings(&["-w"]));
}

#[test]
fn path_alone() {
    let mut args = strings(&["file.txt"]);
    assert_eq!(get_path(&mut args, true), Ok("file.txt".to_string()));
    assert!(args.is_empty());
}

#[test]
fn path_after_several_arguments() {
    let mut args = strings(&["-c", "-l", "a", "b"]);
    assert_eq!(get_path(&mut args, true), Ok("b".to_string()));
    assert_eq!(args, strings(&["-c", "-l", "a"]));
}

#[test]
fn missing_path_is_not_found() {
    let mut args = strings(&["-w", "no-such-file"]);
    assert_eq!(get_path(&mut args, false), Err(WcError::PathNotFound));
    assert_eq!(args, strings(&["-w"]));
}

#[test]
fn path_of_no_arguments_is_a_usage_error() {
    let mut args: Vec<String> = Vec::new();
    assert_eq!(get_path(&mut args, true), Err(WcError::Usage));
    assert!(args.is_empty());
    assert_eq!(get_path(&mut args, false), Err(WcError::Usage));
    assert!(args.is_empty());
}

#[test]
fn flags_select_one_statistic() {
    assert_eq!(parse_args_to_command(&strings(&["-c"])), Commands::GetBytes);
    assert_eq!(parse_args_to_command(&strings(&["-l"])), Commands::GetLines);
    assert_eq!(parse_args_to_command(&strings(&["-w"])), Commands::GetWords);
}

#[test]
fn no_flag_selects_all() {
    let args: Vec<String> = Vec::new();
    assert_eq!(parse_args_to_command(&args), Commands::Empty);
}

#[test]
fn unknown_flags_select_all() {
    assert_eq!(parse_args_to_command(&strings(&["-x"])), Commands::Empty);
    assert_eq!(parse_args_to_command(&strings(&[""])), Commands::Empty);
    assert_eq!(parse_args_to_command(&strings(&["-"])), Commands::Empty);
    assert_eq!(parse_args_to_command(&strings(&["--w"])), Commands::Empty);
    assert_eq!(parse_args_to_command(&strings(&["-wc"])), Commands::Empty);
    assert_eq!(parse_args_to_command(&strings(&["-W"])), Commands::Empty);
    assert_eq!(parse_args_to_command(&strings(&[" -w"])), Commands::Empty);
    assert_eq!(parse_args_to_command(&strings(&["--words"])), Commands::Empty);
}

#[test]
fn only_the_first_argument_is_the_flag() {
    assert_eq!(parse_args_to_command(&strings(&["-c", "-w"])), Commands::GetBytes);
    assert_eq!(parse_args_to_command(&strings(&["x", "-w"])), Commands::Empty);
}

#[test]
fn flag_is_read_after_the_path_is_taken() {
    let mut args = strings(&["-l", "notes.txt"]);
    let path = get_path(&mut args, true);
    assert_eq!(path, Ok("notes.txt".to_string()));
    assert_eq!(parse_args_to_command(&args), Commands::GetLines);

    let mut lone = strings(&["-l"]);
    assert_eq!(get_path(&mut lone, true), Ok("-l".to_string()));
    assert_eq!(parse_args_to_command(&lone), Commands::Empty);
}

#[test]
fn error_messages() {
    assert_eq!(WcError::Usage.message(), "No arguments provided");
    assert_eq!(WcError::PathNotFound.message(), "Path does not exist!");
    assert_eq!(
        WcError::Read("stream did not contain valid UTF-8".to_string()).message(),
        "Failed to read file content: stream did not contain valid UTF-8"
    );
    assert_eq!(
        WcError::Metadata("permission denied".to_string()).message(),
        "Failed to retrieve file metadata: permission denied"
    );
    assert_eq!(WcError::Read(String::new()).message(), "Failed to read file content: ");
}
