use fterm::command::subcommand::run_subcommand;
use fterm::error::FtermError;

#[test]
fn run_subcommand_ok_returns_exit_code() {
    let result = run_subcommand(|| Ok(42));
    assert_eq!(result, 42);
}

#[test]
fn run_subcommand_err_returns_1() {
    let result = run_subcommand(|| Err(FtermError::Runner(String::from("something went wrong"))));
    assert_eq!(result, 1);
}

#[test]
fn run_subcommand_ok_zero_returns_0() {
    let result = run_subcommand(|| Ok(0));
    assert_eq!(result, 0);
}
