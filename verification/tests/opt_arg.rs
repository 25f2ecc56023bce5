use humane_commands::command::Command;
use humane_commands::opt_arg::OptionalArgExtension;

#[test]
fn opt_arg_some() {
    let mut cmd = Command::new("echo");
    cmd.opt_arg(Some("test"));
    assert_eq!(cmd.get_args().into_iter().collect::<Vec<_>>(), ["test"]);
}

#[test]
fn opt_arg_none() {
    let mut cmd = Command::new("echo");
    cmd.arg("test").opt_arg(Option::<&str>::None);
    assert_eq!(cmd.get_args().into_iter().collect::<Vec<_>>(), ["test"]);
}

#[test]
fn opt_arg_flag_some() {
    let mut cmd = Command::new("echo");
    cmd.opt_arg(("foo", Some("bar")));
    assert_eq!(
        cmd.get_args().into_iter().collect::<Vec<_>>(),
        ["foo", "bar"]
    );
}

#[test]
fn opt_arg_flag_none() {
    let mut cmd = Command::new("echo");
    cmd.arg("test").opt_arg(("foo", Option::<&str>::None));
    assert_eq!(cmd.get_args().into_iter().collect::<Vec<_>>(), ["test"]);
}
