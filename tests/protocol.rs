use polytorus::error::LedgerError;
use polytorus::protocol::{bytes_to_cmd, cmd_to_bytes, Command, CMD_LEN};

#[test]
fn command_field_is_padded_with_zeros() {
    let b = cmd_to_bytes("version");
    assert_eq!(b.len(), CMD_LEN);
    assert_eq!(&b[..7], b"version");
    assert!(b[7..].iter().all(|&x| x == 0));
}

#[test]
fn frame_splits_into_command_and_payload() {
    let mut frame = cmd_to_bytes("tx").to_vec();
    frame.extend_from_slice(&[1, 2, 3]);
    let (cmd, rest) = bytes_to_cmd(&frame).unwrap();
    assert_eq!(cmd, "tx");
    assert_eq!(rest, &[1, 2, 3]);
}

#[test]
fn short_or_garbled_frame_is_refused() {
    assert_eq!(bytes_to_cmd(&[b'a'; 11]).unwrap_err(), LedgerError::Serialization);
    let mut frame = vec![0xffu8; 12];
    frame.push(1);
    assert_eq!(bytes_to_cmd(&frame).unwrap_err(), LedgerError::Serialization);
}

#[test]
fn commands_parse_by_name() {
    for c in [
        Command::Addr,
        Command::Block,
        Command::Inv,
        Command::GetBlocks,
        Command::GetData,
        Command::Tx,
        Command::Version,
    ] {
        assert_eq!(Command::parse(c.name()), Some(c));
    }
    assert_eq!(Command::parse("getblocks"), Some(Command::GetBlocks));
    assert_eq!(Command::parse("ping"), None);
}
