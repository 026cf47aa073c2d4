//! The explorer implementations written by the group's members.

use vstd::prelude::*;

verus! {

/// Which explorer implementation to build.
#[derive(Clone, Copy, Debug, PartialEq, Eq, Structural)]
pub enum ExplorerKind {
    Miner,
    Ai,
    Smart,
}

/// The explorers offered, in menu order.
pub open spec fn explorer_order_spec() -> Seq<ExplorerKind> {
    seq![ExplorerKind::Miner, ExplorerKind::Ai, ExplorerKind::Smart]
}

/// The explorers offered, in menu order.
pub fn explorer_order() -> (r: [ExplorerKind; 3])
    ensures
        r@ == explorer_order_spec(),
{
    let r = [ExplorerKind::Miner, ExplorerKind::Ai, ExplorerKind::Smart];
    proof {
        assert(r@ =~= explorer_order_spec());
    }
    r
}

impl ExplorerKind {
    /// The name shown for the explorer.
    pub open spec fn name_spec(self) -> Seq<char> {
        match self {
            ExplorerKind::Miner => "Miner"@,
            ExplorerKind::Ai => "AI"@,
            ExplorerKind::Smart => "Smart"@,
        }
    }

    /// The name shown for the explorer.
    pub fn name(self) -> (r: &'static str)
        ensures
            r@ == self.name_spec(),
    {
        match self {
            ExplorerKind::Miner => "Miner",
            ExplorerKind::Ai => "AI",
            ExplorerKind::Smart => "Smart",
        }
    }
}

} // verus!
