use gdbserver::cli::Transport;
use gdbserver::Opt;

fn opt(kind: &str, args: &[&str]) -> Opt {
    Opt {
        addr: String::from("0.0.0.0:64126"),
        kind: String::from(kind),
        program: String::from("/bin/true"),
        args: args.iter().map(|s| String::from(*s)).collect(),
    }
}

#[test]
fn transports() {
    assert_eq!(opt("tcp", &[]).transport(), Some(Transport::Tcp));
    assert_eq!(opt("unix", &[]).transport(), Some(Transport::Unix));
    assert_eq!(opt("stdio", &[]).transport(), Some(Transport::Stdio));
    assert_eq!(opt("udp", &[]).transport(), None);
}

#[test]
fn tracee_argv_starts_with_program() {
    assert_eq!(opt("tcp", &["-v", "x"]).tracee_argv(), vec!["/bin/true", "-v", "x"]);
    assert_eq!(opt("tcp", &[]).tracee_argv(), vec!["/bin/true"]);
}
