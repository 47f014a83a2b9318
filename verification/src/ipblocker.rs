//! The command that blocks a peer at the firewall.

use crate::text::texts;
use vstd::prelude::*;
use vstd::string::StringExecFns;

verus! {

/// A command line: the program and its arguments.
#[derive(Debug, PartialEq, Eq)]
pub struct BlockCommand {
    pub program: String,
    pub args: Vec<String>,
}

/// A command line as plain text.
pub struct BlockCommandView {
    pub program: Seq<char>,
    pub args: Seq<Seq<char>>,
}

impl View for BlockCommand {
    type V = BlockCommandView;

    open spec fn view(&self) -> BlockCommandView {
        BlockCommandView { program: self.program@, args: texts(self.args@) }
    }
}

/// The command that drops what comes from `ip_address`: a rule added to the
/// input chain of the inet filter table.
pub open spec fn block_command(ip_address: Seq<char>) -> BlockCommandView {
    BlockCommandView {
        program: "nft"@,
        args: seq![
            "add"@,
            "rule"@,
            "inet"@,
            "filter"@,
            "input"@,
            "ip"@,
            "saddr"@,
            ip_address,
            "drop"@,
        ],
    }
}

/// Blocks peers at the firewall.
pub struct IPBlocker;

impl IPBlocker {
    /// The command to run for blocking `ip_address`.
    pub fn block_ip(ip_address: String) -> (command: BlockCommand)
        ensures
            command@ == block_command(ip_address@),
    {
        let mut args: Vec<String> = Vec::new();
        args.push(String::from_str("add"));
        args.push(String::from_str("rule"));
        args.push(String::from_str("inet"));
        args.push(String::from_str("filter"));
        args.push(String::from_str("input"));
        args.push(String::from_str("ip"));
        args.push(String::from_str("saddr"));
        args.push(ip_address);
        args.push(String::from_str("drop"));
        assert(texts(args@) =~= block_command(ip_address@).args);
        BlockCommand { program: String::from_str("nft"), args }
    }
}

} // verus!
