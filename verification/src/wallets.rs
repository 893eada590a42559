//! The wallets that may post payment notifications.

use vstd::prelude::*;
use vstd::string::StringExecFns;
use crate::profile::Role;
use crate::text::same_text;

verus! {

/// A wallet and the role under which it may post notifications.
#[derive(Debug)]
pub struct AuthorizedWallet {
    pub address: String,
    pub role: Role,
}

pub struct AuthorizedWalletView {
    pub address: Seq<char>,
    pub role: Role,
}

impl View for AuthorizedWallet {
    type V = AuthorizedWalletView;

    open spec fn view(&self) -> AuthorizedWalletView {
        AuthorizedWalletView { address: self.address@, role: self.role }
    }
}

pub open spec fn wallet_views(rows: Seq<AuthorizedWallet>) -> Seq<AuthorizedWalletView> {
    Seq::new(rows.len(), |i: int| rows[i]@)
}

/// The table of authorized wallets. An address stands in it once.
pub struct AuthorizedWallets {
    rows: Vec<AuthorizedWallet>,
}

impl View for AuthorizedWallets {
    type V = Seq<AuthorizedWalletView>;

    closed spec fn view(&self) -> Seq<AuthorizedWalletView> {
        wallet_views(self.rows@)
    }
}

/// No address stands in the table twice.
pub open spec fn distinct_addresses(rows: Seq<AuthorizedWalletView>) -> bool {
    forall|i: int, j: int|
        0 <= i < j < rows.len() ==> (#[trigger] rows[i]).address != (#[trigger] rows[j]).address
}

pub open spec fn holds_wallet(rows: Seq<AuthorizedWalletView>, i: int, address: Seq<char>) -> bool {
    0 <= i < rows.len() && rows[i].address == address
}

/// The role of a wallet, if it is authorized.
pub open spec fn role_in(rows: Seq<AuthorizedWalletView>, address: Seq<char>) -> Option<Role> {
    if exists|i: int| holds_wallet(rows, i, address) {
        Some(rows[choose|i: int| holds_wallet(rows, i, address)].role)
    } else {
        None
    }
}

/// In a table without repeated addresses, the row that holds an address
/// gives its role.
pub proof fn role_is_that_of_the_row(rows: Seq<AuthorizedWalletView>, i: int, address: Seq<char>)
    requires
        distinct_addresses(rows),
        holds_wallet(rows, i, address),
    ensures
        role_in(rows, address) == Some(rows[i].role),
{
    let j = choose|j: int| holds_wallet(rows, j, address);
    if i < j {
        assert(rows[i].address != rows[j].address);
    } else if j < i {
        assert(rows[j].address != rows[i].address);
    }
}

impl AuthorizedWallets {
    /// An empty table.
    pub fn new() -> (r: AuthorizedWallets)
        ensures
            r@ == Seq::<AuthorizedWalletView>::empty(),
            distinct_addresses(r@),
    {
        let r = AuthorizedWallets { rows: Vec::new() };
        assert(r@ =~= Seq::empty());
        r
    }

    fn find(&self, address: &str) -> (r: Option<usize>)
        requires
            distinct_addresses(self@),
        ensures
            match r {
                Some(i) => holds_wallet(self@, i as int, address@),
                None => forall|i: int| !holds_wallet(self@, i, address@),
            },
    {
        let mut i: usize = 0;
        while i < self.rows.len()
            invariant
                i <= self.rows.len(),
                forall|k: int| 0 <= k < i ==> !holds_wallet(self@, k, address@),
            decreases self.rows.len() - i,
        {
            if same_text(self.rows[i].address.as_str(), address) {
                assert(holds_wallet(self@, i as int, address@));
                return Some(i);
            }
            i = i + 1;
        }
        None
    }

    /// The role of a wallet, if it is authorized.
    pub fn role_of(&self, address: &str) -> (r: Option<Role>)
        requires
            distinct_addresses(self@),
        ensures
            r == role_in(self@, address@),
    {
        match self.find(address) {
            Some(i) => {
                proof {
                    role_is_that_of_the_row(self@, i as int, address@);
                }
                Some(self.rows[i].role)
            },
            None => None,
        }
    }

    /// Whether a wallet may post payment notifications.
    pub fn is_authorized(&self, address: &str) -> (r: bool)
        requires
            distinct_addresses(self@),
        ensures
            r == role_in(self@, address@) is Some,
    {
        self.role_of(address).is_some()
    }

    /// Authorizes a wallet under a role. A wallet that is authorized
    /// already gets the new role.
    pub fn authorize(&mut self, address: &str, role: Role)
        requires
            distinct_addresses(old(self)@),
        ensures
            distinct_addresses(final(self)@),
            role_in(final(self)@, address@) == Some(role),
            forall|other: Seq<char>|
                other != address@ ==> role_in(final(self)@, other) == role_in(old(self)@, other),
            final(self)@.len() == old(self)@.len() + (if role_in(old(self)@, address@) is Some {
                0int
            } else {
                1int
            }),
    {
        let ghost before = self@;
        match self.find(address) {
            Some(i) => {
                self.rows[i].role = role;
                proof {
                    let after = self@;
                    assert(after =~= before.update(
                        i as int,
                        AuthorizedWalletView { address: address@, role },
                    ));
                    assert(distinct_addresses(after)) by {
                        assert forall|a: int, b: int| 0 <= a < b < after.len() implies (
                        #[trigger] after[a]).address != (#[trigger] after[b]).address by {
                            assert(before[a].address != before[b].address);
                        }
                    }
                    role_is_that_of_the_row(after, i as int, address@);
                    assert(holds_wallet(before, i as int, address@));
                    assert forall|other: Seq<char>| other != address@ implies role_in(after, other)
                        == role_in(before, other) by {
                        same_roles_elsewhere(before, after, other);
                    }
                }
            },
            None => {
                self.rows.push(AuthorizedWallet { address: String::from_str(address), role });
                proof {
                    let after = self@;
                    let n = before.len() as int;
                    assert(after =~= before.push(AuthorizedWalletView { address: address@, role }));
                    assert(distinct_addresses(after)) by {
                        assert forall|a: int, b: int| 0 <= a < b < after.len() implies (
                        #[trigger] after[a]).address != (#[trigger] after[b]).address by {
                            if b == n {
                                assert(!holds_wallet(before, a, address@));
                            } else {
                                assert(before[a].address != before[b].address);
                            }
                        }
                    }
                    assert(holds_wallet(after, n, address@));
                    role_is_that_of_the_row(after, n, address@);
                    assert forall|other: Seq<char>| other != address@ implies role_in(after, other)
                        == role_in(before, other) by {
                        same_roles_elsewhere(before, after, other);
                    }
                }
            },
        }
    }

    /// Takes a wallet's authorization away. It says whether the wallet was
    /// authorized.
    pub fn revoke(&mut self, address: &str) -> (r: bool)
        requires
            distinct_addresses(old(self)@),
        ensures
            distinct_addresses(final(self)@),
            r == role_in(old(self)@, address@) is Some,
            role_in(final(self)@, address@) is None,
            forall|other: Seq<char>|
                other != address@ ==> role_in(final(self)@, other) == role_in(old(self)@, other),
    {
        let ghost before = self@;
        match self.find(address) {
            Some(i) => {
                let _ = self.rows.remove(i);
                proof {
                    let after = self@;
                    assert(after =~= before.remove(i as int));
                    assert(distinct_addresses(after)) by {
                        assert forall|a: int, b: int| 0 <= a < b < after.len() implies (
                        #[trigger] after[a]).address != (#[trigger] after[b]).address by {
                            let x = if a < i {
                                a
                            } else {
                                a + 1
                            };
                            let y = if b < i {
                                b
                            } else {
                                b + 1
                            };
                            assert(before[x].address != before[y].address);
                        }
                    }
                    assert forall|k: int| !holds_wallet(after, k, address@) by {
                        if holds_wallet(after, k, address@) {
                            let x = if k < i {
                                k
                            } else {
                                k + 1
                            };
                            if x < i {
                                assert(before[x].address != before[i as int].address);
                            } else {
                                assert(before[i as int].address != before[x].address);
                            }
                        }
                    }
                    assert(holds_wallet(before, i as int, address@));
                    assert forall|other: Seq<char>| other != address@ implies role_in(after, other)
                        == role_in(before, other) by {
                        if exists|k: int| holds_wallet(before, k, other) {
                            let k = choose|k: int| holds_wallet(before, k, other);
                            let x = if k < i {
                                k
                            } else {
                                k - 1
                            };
                            assert(holds_wallet(after, x, other));
                            role_is_that_of_the_row(after, x, other);
                            role_is_that_of_the_row(before, k, other);
                        } else if exists|k: int| holds_wallet(after, k, other) {
                            let k = choose|k: int| holds_wallet(after, k, other);
                            let x = if k < i {
                                k
                            } else {
                                k + 1
                            };
                            assert(holds_wallet(before, x, other));
                        }
                    }
                }
                true
            },
            None => false,
        }
    }

    /// How many wallets are authorized.
    pub fn count(&self) -> (r: usize)
        ensures
            r == self@.len(),
    {
        self.rows.len()
    }
}

/// A table that was extended, or changed in the role of one address, gives
/// every other address the role that it had.
proof fn same_roles_elsewhere(
    before: Seq<AuthorizedWalletView>,
    after: Seq<AuthorizedWalletView>,
    other: Seq<char>,
)
    requires
        distinct_addresses(before),
        distinct_addresses(after),
        before.len() <= after.len(),
        forall|k: int| 0 <= k < before.len() ==> (#[trigger] after[k]).address == before[k].address,
        forall|k: int|
            0 <= k < before.len() && before[k].address == other ==> (#[trigger] after[k]).role
                == before[k].role,
        forall|k: int| before.len() <= k < after.len() ==> (#[trigger] after[k]).address != other,
    ensures
        role_in(after, other) == role_in(before, other),
{
    if exists|k: int| holds_wallet(before, k, other) {
        let k = choose|k: int| holds_wallet(before, k, other);
        assert(holds_wallet(after, k, other));
        role_is_that_of_the_row(after, k, other);
        role_is_that_of_the_row(before, k, other);
    } else if exists|k: int| holds_wallet(after, k, other) {
        let k = choose|k: int| holds_wallet(after, k, other);
        if k < before.len() {
            assert(holds_wallet(before, k, other));
        }
    }
}

} // verus!
