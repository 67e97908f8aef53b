//! Principals and the instructions handed to the asset ledger.

use vstd::bytes::{
    lemma_auto_spec_u128_to_from_le_bytes, spec_u128_from_le_bytes, spec_u128_to_le_bytes,
    u128_from_le_bytes, u128_to_le_bytes,
};
use vstd::prelude::*;
use vstd::slice::slice_subrange;

verus! {

/// What an address names on the host ledger.
#[derive(Clone, Copy, Debug, PartialEq, Eq, Hash, Structural)]
pub enum AddressKind {
    Account,
    Contract,
}

/// A principal or an asset: a kind and a 256-bit key, held as two halves.
#[derive(Clone, Copy, Debug, PartialEq, Eq, Hash, Structural)]
pub struct Address {
    pub kind: AddressKind,
    pub hi: u128,
    pub lo: u128,
}

/// What stands before the key where the host writes an address down: the
/// tag of an address among its values, and the tag of the kind; for an
/// account the tag of the kind of its key as well.
pub open spec fn header(kind: AddressKind) -> Seq<u8> {
    match kind {
        AddressKind::Account => seq![0u8, 0u8, 0u8, 18u8, 0u8, 0u8, 0u8, 0u8, 0u8, 0u8, 0u8, 0u8],
        AddressKind::Contract => seq![0u8, 0u8, 0u8, 18u8, 0u8, 0u8, 0u8, 1u8],
    }
}

/// The address as the host writes it down: the header of its kind and the
/// 32 bytes of its key, each half with its lowest byte first.
pub open spec fn encoding(a: Address) -> Seq<u8> {
    header(a.kind) + spec_u128_to_le_bytes(a.hi) + spec_u128_to_le_bytes(a.lo)
}

/// The direction of a transfer, seen from the custody account.
#[derive(Clone, Copy, Debug, PartialEq, Eq, Hash, Structural)]
pub enum Flow {
    /// From `party` into custody.
    Deposit,
    /// Out of custody to `party`.
    Release,
}

/// One movement of `amount` units of `asset` between custody and `party`.
#[derive(Clone, Copy, Debug, PartialEq, Eq, Hash, Structural)]
pub struct Transfer {
    pub asset: Address,
    pub flow: Flow,
    pub party: Address,
    pub amount: i128,
}

/// What one transfer adds to custody.
pub open spec fn inflow(t: Transfer) -> int {
    match t.flow {
        Flow::Deposit => t.amount as int,
        Flow::Release => -(t.amount as int),
    }
}

/// What a list of transfers adds to custody, all of them carried out.
pub open spec fn net_inflow(ts: Seq<Transfer>) -> int
    decreases ts.len(),
{
    if ts.len() == 0 {
        0
    } else {
        net_inflow(ts.drop_last()) + inflow(ts.last())
    }
}

/// A transfer of `amount` from `party` into custody.
pub open spec fn deposit_of(asset: Address, party: Address, amount: i128) -> Transfer {
    Transfer { asset, flow: Flow::Deposit, party, amount }
}

/// A transfer of `amount` out of custody to `party`.
pub open spec fn release_of(asset: Address, party: Address, amount: i128) -> Transfer {
    Transfer { asset, flow: Flow::Release, party, amount }
}

impl Address {
    /// The address of the account with the given key.
    pub fn account(hi: u128, lo: u128) -> (a: Address)
        ensures
            a == (Address { kind: AddressKind::Account, hi, lo }),
    {
        Address { kind: AddressKind::Account, hi, lo }
    }

    /// The address of the contract with the given key.
    pub fn contract(hi: u128, lo: u128) -> (a: Address)
        ensures
            a == (Address { kind: AddressKind::Contract, hi, lo }),
    {
        Address { kind: AddressKind::Contract, hi, lo }
    }
}

impl Address {
    /// The address as the host writes it down.
    pub fn encode(&self) -> (bytes: Vec<u8>)
        ensures
            bytes@ == encoding(*self),
    {
        let mut bytes: Vec<u8> = Vec::new();
        bytes.push(0);
        bytes.push(0);
        bytes.push(0);
        bytes.push(18);
        bytes.push(0);
        bytes.push(0);
        bytes.push(0);
        match self.kind {
            AddressKind::Account => {
                bytes.push(0);
                bytes.push(0);
                bytes.push(0);
                bytes.push(0);
                bytes.push(0);
            },
            AddressKind::Contract => {
                bytes.push(1);
            },
        }
        assert(bytes@ =~= header(self.kind));
        let mut hi = u128_to_le_bytes(self.hi);
        let mut lo = u128_to_le_bytes(self.lo);
        bytes.append(&mut hi);
        bytes.append(&mut lo);
        assert(bytes@ =~= encoding(*self));
        bytes
    }

    /// The address that the host writes down as `bytes`, if there is one.
    pub fn decode(bytes: &Vec<u8>) -> (r: Option<Address>)
        ensures
            match r {
                Some(a) => bytes@ == encoding(a),
                None => forall|a: Address| bytes@ != #[trigger] encoding(a),
            },
    {
        proof {
            lemma_auto_spec_u128_to_from_le_bytes();
        }
        let n = bytes.len();
        let tagged = n >= 8 && bytes[0] == 0 && bytes[1] == 0 && bytes[2] == 0 && bytes[3] == 18
            && bytes[4] == 0 && bytes[5] == 0 && bytes[6] == 0;
        let account = tagged && n == 44 && bytes[7] == 0 && bytes[8] == 0 && bytes[9] == 0
            && bytes[10] == 0 && bytes[11] == 0;
        let contract = tagged && n == 40 && bytes[7] == 1;
        if !account && !contract {
            assert forall|a: Address| bytes@ != #[trigger] encoding(a) by {
                let e = encoding(a);
                let h = header(a.kind);
                assert(e.len() == h.len() + 32);
                if e.len() == n {
                    assert(forall|i: int| 0 <= i < h.len() ==> e[i] == h[i]);
                    match a.kind {
                        AddressKind::Account => {
                            assert(e[0] == 0 && e[1] == 0 && e[2] == 0 && e[3] == 18 && e[4] == 0
                                && e[5] == 0 && e[6] == 0 && e[7] == 0 && e[8] == 0 && e[9] == 0
                                && e[10] == 0 && e[11] == 0);
                        },
                        AddressKind::Contract => {
                            assert(e[0] == 0 && e[1] == 0 && e[2] == 0 && e[3] == 18 && e[4] == 0
                                && e[5] == 0 && e[6] == 0 && e[7] == 1);
                        },
                    }
                }
            }
            return None;
        }
        let start: usize = if account {
            12
        } else {
            8
        };
        let hi = u128_from_le_bytes(slice_subrange(bytes.as_slice(), start, start + 16));
        let lo = u128_from_le_bytes(slice_subrange(bytes.as_slice(), start + 16, start + 32));
        let a = Address {
            kind: if account {
                AddressKind::Account
            } else {
                AddressKind::Contract
            },
            hi,
            lo,
        };
        proof {
            let first = bytes@.subrange(start as int, start + 16);
            let second = bytes@.subrange(start + 16, start + 32);
            assert(spec_u128_to_le_bytes(hi) == first);
            assert(spec_u128_to_le_bytes(lo) == second);
            assert(bytes@.subrange(0, start as int) =~= header(a.kind));
            assert(bytes@ =~= bytes@.subrange(0, start as int) + first + second);
        }
        Some(a)
    }
}

/// No two addresses are written down alike, and what was written down is
/// read back as it was.
pub proof fn law_encoding_is_faithful(a: Address, b: Address)
    ensures
        encoding(a) == encoding(b) ==> a == b,
        encoding(a).len() == header(a.kind).len() + 32,
{
    lemma_auto_spec_u128_to_from_le_bytes();
    let ea = encoding(a);
    let eb = encoding(b);
    if ea == eb {
        let ha = header(a.kind);
        let hb = header(b.kind);
        assert(ea.len() == ha.len() + 32 && eb.len() == hb.len() + 32);
        assert(a.kind == b.kind);
        let n = ha.len() as int;
        assert(ea.subrange(n, n + 16) =~= spec_u128_to_le_bytes(a.hi));
        assert(eb.subrange(n, n + 16) =~= spec_u128_to_le_bytes(b.hi));
        assert(ea.subrange(n + 16, n + 32) =~= spec_u128_to_le_bytes(a.lo));
        assert(eb.subrange(n + 16, n + 32) =~= spec_u128_to_le_bytes(b.lo));
        assert(spec_u128_from_le_bytes(spec_u128_to_le_bytes(a.hi)) == a.hi);
        assert(spec_u128_from_le_bytes(spec_u128_to_le_bytes(b.hi)) == b.hi);
        assert(spec_u128_from_le_bytes(spec_u128_to_le_bytes(a.lo)) == a.lo);
        assert(spec_u128_from_le_bytes(spec_u128_to_le_bytes(b.lo)) == b.lo);
    }
}

impl Transfer {
    /// A transfer of `amount` from `party` into custody.
    pub fn deposit(asset: Address, party: Address, amount: i128) -> (t: Transfer)
        ensures
            t == deposit_of(asset, party, amount),
    {
        Transfer { asset, flow: Flow::Deposit, party, amount }
    }

    /// A transfer of `amount` out of custody to `party`.
    pub fn release(asset: Address, party: Address, amount: i128) -> (t: Transfer)
        ensures
            t == release_of(asset, party, amount),
    {
        Transfer { asset, flow: Flow::Release, party, amount }
    }
}

/// The net inflow of a list of at most two transfers.
pub proof fn lemma_net_inflow_short(ts: Seq<Transfer>)
    requires
        ts.len() <= 2,
    ensures
        ts.len() == 0 ==> net_inflow(ts) == 0,
        ts.len() == 1 ==> net_inflow(ts) == inflow(ts[0]),
        ts.len() == 2 ==> net_inflow(ts) == inflow(ts[0]) + inflow(ts[1]),
{
    reveal_with_fuel(net_inflow, 3);
    if ts.len() == 2 {
        assert(ts.drop_last().drop_last().len() == 0);
    }
}

} // verus!
