//! Peer messages and their framing: a twelve-byte command name, padded with
//! zeros, ahead of the payload.

use vstd::prelude::*;
use crate::codec::bytes_eq;
use crate::domain::block::Block;
use crate::domain::transaction::Transaction;
use crate::error::LedgerError;
use vstd::utf8::{decode_utf8, encode_utf8, encode_utf8_decode_utf8, valid_utf8};

verus! {

/// The width of the command field at the head of a frame.
pub const CMD_LEN: usize = 12;

/// Relies on `String::from_utf8`: the text whose UTF-8 encoding is `bytes`,
/// or `None` when `bytes` is not valid UTF-8.
#[verifier::external_body]
fn string_from_utf8(bytes: Vec<u8>) -> (r: Option<String>)
    ensures
        r is Some <==> valid_utf8(bytes@),
        r is Some ==> r->Some_0@ == decode_utf8(bytes@),
{
    match String::from_utf8(bytes) {
        Ok(s) => Some(s),
        Err(_) => None,
    }
}

/// A message between peers.
#[derive(Debug, Clone)]
pub enum Message {
    Addr(Vec<String>),
    Version(Versionmsg),
    Tx(Txmsg),
    GetData(GetDatamsg),
    GetBlock(GetBlockmsg),
    Inv(Invmsg),
    Block(Blockmsg),
}

/// A block sent by a peer.
#[derive(Debug, Clone)]
pub struct Blockmsg {
    pub addr_from: String,
    pub block: Block,
}

/// A request for a peer's blocks.
#[derive(Debug, Clone)]
pub struct GetBlockmsg {
    pub addr_from: String,
}

/// A request for one block or transaction by id.
#[derive(Debug, Clone)]
pub struct GetDatamsg {
    pub addr_from: String,
    pub kind: String,
    pub id: String,
}

/// An announcement of the ids a peer holds.
#[derive(Debug, Clone)]
pub struct Invmsg {
    pub addr_from: String,
    pub kind: String,
    pub items: Vec<String>,
}

/// A transaction sent by a peer.
#[derive(Debug, Clone)]
pub struct Txmsg {
    pub addr_from: String,
    pub transaction: Transaction,
}

/// A peer's protocol version and chain height.
#[derive(Debug, Clone)]
pub struct Versionmsg {
    pub addr_from: String,
    pub version: i32,
    pub best_height: i32,
}

/// `s` with every zero byte removed.
pub open spec fn strip_zeros(s: Seq<u8>) -> Seq<u8>
    decreases s.len(),
{
    if s.len() == 0 {
        Seq::empty()
    } else if s.last() == 0 {
        strip_zeros(s.drop_last())
    } else {
        strip_zeros(s.drop_last()).push(s.last())
    }
}

/// The command field for `cmd`: its UTF-8 bytes, then zeros.
pub fn cmd_to_bytes(cmd: &str) -> (r: [u8; CMD_LEN])
    requires
        encode_utf8(cmd@).len() <= CMD_LEN,
    ensures
        r@ == encode_utf8(cmd@) + Seq::new((CMD_LEN - encode_utf8(cmd@).len()) as nat, |i: int| 0u8),
{
    let mut bytes = [0u8; CMD_LEN];
    let src = cmd.as_bytes();
    let mut i: usize = 0;
    while i < src.len()
        invariant
            i <= src@.len() <= CMD_LEN,
            src@ == encode_utf8(cmd@),
            forall|j: int| 0 <= j < i ==> bytes@[j] == src@[j],
            forall|j: int| i <= j < CMD_LEN ==> bytes@[j] == 0,
        decreases src@.len() - i,
    {
        bytes[i] = src[i];
        i = i + 1;
    }
    assert(bytes@ =~= encode_utf8(cmd@) + Seq::new((CMD_LEN - encode_utf8(cmd@).len()) as nat, |i: int| 0u8));
    bytes
}

/// Splits a frame into its command, read from the command field without its
/// zero bytes, and the payload after it. A frame shorter than the field, or a
/// command that is not UTF-8, gives `Serialization`.
pub fn bytes_to_cmd(bytes: &[u8]) -> (r: Result<(String, &[u8]), LedgerError>)
    ensures
        r is Ok <==> bytes@.len() >= CMD_LEN && valid_utf8(strip_zeros(bytes@.subrange(0, CMD_LEN as int))),
        r is Ok ==> r->Ok_0.0@ == decode_utf8(strip_zeros(bytes@.subrange(0, CMD_LEN as int)))
            && r->Ok_0.1@ == bytes@.subrange(CMD_LEN as int, bytes@.len() as int),
        r is Err ==> r == Err::<(String, &[u8]), LedgerError>(LedgerError::Serialization),
{
    if bytes.len() < CMD_LEN {
        return Err(LedgerError::Serialization);
    }
    let ghost head = bytes@.subrange(0, CMD_LEN as int);
    let mut kept: Vec<u8> = Vec::new();
    let mut i: usize = 0;
    while i < CMD_LEN
        invariant
            i <= CMD_LEN <= bytes@.len(),
            head == bytes@.subrange(0, CMD_LEN as int),
            kept@ == strip_zeros(head.subrange(0, i as int)),
        decreases CMD_LEN - i,
    {
        assert(head.subrange(0, i as int + 1).drop_last() =~= head.subrange(0, i as int));
        if bytes[i] != 0 {
            kept.push(bytes[i]);
        }
        i = i + 1;
    }
    assert(head.subrange(0, CMD_LEN as int) =~= head);
    match string_from_utf8(kept) {
        Some(cmd) => {
            let rest = vstd::slice::slice_subrange(bytes, CMD_LEN, bytes.len());
            Ok((cmd, rest))
        },
        None => Err(LedgerError::Serialization),
    }
}

/// Whether two strings hold the same text.
pub fn str_eq(a: &str, b: &str) -> (r: bool)
    ensures
        r == (a@ == b@),
{
    let r = bytes_eq(a.as_bytes(), b.as_bytes());
    proof {
        encode_utf8_decode_utf8(a@);
        encode_utf8_decode_utf8(b@);
    }
    r
}

/// The kinds of frame a peer can send.
#[derive(Debug, Clone, Copy, PartialEq, Eq, Structural)]
pub enum Command {
    Addr,
    Block,
    Inv,
    GetBlocks,
    GetData,
    Tx,
    Version,
}

/// The name each command travels under.
pub open spec fn command_name(c: Command) -> Seq<char> {
    match c {
        Command::Addr => "addr"@,
        Command::Block => "block"@,
        Command::Inv => "inv"@,
        Command::GetBlocks => "getblocks"@,
        Command::GetData => "getdata"@,
        Command::Tx => "tx"@,
        Command::Version => "version"@,
    }
}

impl Command {
    /// The name this command travels under.
    pub fn name(&self) -> (r: &'static str)
        ensures
            r@ == command_name(*self),
    {
        match self {
            Command::Addr => "addr",
            Command::Block => "block",
            Command::Inv => "inv",
            Command::GetBlocks => "getblocks",
            Command::GetData => "getdata",
            Command::Tx => "tx",
            Command::Version => "version",
        }
    }

    /// The command named `cmd`, or `None` for an unknown name.
    pub fn parse(cmd: &str) -> (r: Option<Command>)
        ensures
            match r {
                Some(c) => command_name(c) == cmd@,
                None => forall|c: Command| command_name(c) != cmd@,
            },
    {
        let all = [
            Command::Addr,
            Command::Block,
            Command::Inv,
            Command::GetBlocks,
            Command::GetData,
            Command::Tx,
            Command::Version,
        ];
        let mut i: usize = 0;
        while i < 7
            invariant
                i <= 7,
                all@ == seq![
                    Command::Addr,
                    Command::Block,
                    Command::Inv,
                    Command::GetBlocks,
                    Command::GetData,
                    Command::Tx,
                    Command::Version,
                ],
                forall|j: int| 0 <= j < i ==> command_name(all@[j]) != cmd@,
            decreases 7 - i,
        {
            let c = all[i];
            if str_eq(c.name(), cmd) {
                return Some(c);
            }
            i = i + 1;
        }
        assert forall|c: Command| command_name(c) != cmd@ by {
            match c {
                Command::Addr => assert(command_name(all@[0]) != cmd@),
                Command::Block => assert(command_name(all@[1]) != cmd@),
                Command::Inv => assert(command_name(all@[2]) != cmd@),
                Command::GetBlocks => assert(command_name(all@[3]) != cmd@),
                Command::GetData => assert(command_name(all@[4]) != cmd@),
                Command::Tx => assert(command_name(all@[5]) != cmd@),
                Command::Version => assert(command_name(all@[6]) != cmd@),
            }
        }
        None
    }
}

} // verus!
