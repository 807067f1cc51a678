use mcadmin::cli::{parse_invocation, parse_port_pairs, PortPair, ServerArgsError, Subcommand};

fn strings(items: &[&str]) -> Vec<String> {
    items.iter().map(|s| s.to_string()).collect()
}

#[test]
fn invocation_picks_the_subcommand() {
    assert_eq!(parse_invocation(&strings(&["help"])), Some((Subcommand::Help, vec![])));
    assert_eq!(
        parse_invocation(&strings(&["run_server", "25565", "1000:2000"])),
        Some((Subcommand::RunServer, strings(&["25565", "1000:2000"])))
    );
    assert_eq!(
        parse_invocation(&strings(&["test_token", "/path/key.json"])),
        Some((Subcommand::TestToken, strings(&["/path/key.json"])))
    );
    for (name, cmd) in [
        ("local_client_address", Subcommand::LocalClientAddress),
        ("upload_host_address", Subcommand::UploadHostAddress),
        ("download_host_address", Subcommand::DownloadHostAddress),
        ("maintain_host_address_object", Subcommand::MaintainHostAddressObject),
    ] {
        assert_eq!(parse_invocation(&strings(&[name])), Some((cmd, vec![])));
    }
}

#[test]
fn invocation_without_a_known_subcommand() {
    assert_eq!(parse_invocation(&strings(&[])), None);
    assert_eq!(parse_invocation(&strings(&["bogus", "help"])), None);
    assert_eq!(parse_invocation(&strings(&["Help"])), None);
}

#[test]
fn port_pairs() {
    assert_eq!(PortPair::parse("25565"), Some(PortPair { internal: 25565, external: 25565 }));
    assert_eq!(PortPair::parse("1000:2000"), Some(PortPair { internal: 1000, external: 2000 }));
    assert_eq!(PortPair::parse("+80"), Some(PortPair { internal: 80, external: 80 }));
    for bad in ["", ":", ":80", "80:", "1:2:3", "70000", "1:70000", "x", " 80"] {
        assert_eq!(PortPair::parse(bad), None, "{:?}", bad);
    }
}

#[test]
fn server_arguments() {
    assert_eq!(parse_port_pairs(&strings(&[])), Err(ServerArgsError::NoPorts));
    assert_eq!(parse_port_pairs(&strings(&["80", "x"])), Err(ServerArgsError::BadPortPair));
    assert_eq!(
        parse_port_pairs(&strings(&["80", "5002:25565"])),
        Ok(vec![PortPair { internal: 80, external: 80 }, PortPair { internal: 5002, external: 25565 }])
    );
}

#[test]
fn port_pair_examples_of_the_manual() {
    for (text, internal, external) in
        [("25565", 25565, 25565), ("9999", 9999, 9999), ("80", 80, 80), ("1000:2000", 1000, 2000), ("5002:25565", 5002, 25565)]
    {
        assert_eq!(PortPair::parse(text), Some(PortPair { internal, external }), "{:?}", text);
    }
}
