//! Account identities.

use vstd::prelude::*;

verus! {

/// The identity of an account or contract on the locker's own chain, as the
/// bytes by which the chain knows it.
#[derive(Debug, PartialEq, Eq)]
pub struct AccountId {
    pub bytes: Vec<u8>,
}

impl View for AccountId {
    type V = Seq<u8>;

    open spec fn view(&self) -> Seq<u8> {
        self.bytes@
    }
}

/// What an account that may be missing stands for.
pub open spec fn account_view(account: Option<AccountId>) -> Option<Seq<u8>> {
    match account {
        Some(id) => Some(id@),
        None => None,
    }
}

/// Whether `byte` is a lower-case letter or a digit.
pub open spec fn is_name_byte(byte: u8) -> bool {
    (97 <= byte <= 122) || (48 <= byte <= 57)
}

/// Whether `byte` is one of the separators `-`, `_` and `.`.
pub open spec fn is_separator(byte: u8) -> bool {
    byte == 45 || byte == 95 || byte == 46
}

/// Whether NEAR takes `id` for the name of an account: 2 to 64 bytes, each a
/// lower-case letter, a digit or a separator, with no separator at either
/// end and no two of them side by side.
pub open spec fn near_account_id_valid(id: Seq<u8>) -> bool {
    &&& 2 <= id.len() <= 64
    &&& forall|at: int|
        0 <= at < id.len() ==> is_name_byte(#[trigger] id[at]) || is_separator(id[at])
    &&& !is_separator(id[0])
    &&& !is_separator(id[id.len() - 1])
    &&& forall|at: int|
        0 <= at < id.len() - 1 ==> !(is_separator(#[trigger] id[at]) && is_separator(id[at + 1]))
}

/// `near_sdk::env::is_valid_account_id`: whether `id` is well-formed as the
/// name of an account. It walks the bytes once, refusing a byte that is
/// neither a name byte nor a separator and a separator that comes first or
/// follows another, and at the end a separator that came last.
#[verifier::external_body]
pub(crate) fn is_valid_account_id(id: &[u8]) -> (valid: bool)
    ensures
        valid == near_account_id_valid(id@),
{
    near_sdk::env::is_valid_account_id(id)
}

/// Whether two byte strings hold the same bytes.
pub fn bytes_equal(a: &[u8], b: &[u8]) -> (same: bool)
    ensures
        same == (a@ == b@),
{
    if a.len() != b.len() {
        return false;
    }
    let mut i: usize = 0;
    while i < a.len()
        invariant
            a@.len() == b@.len(),
            i <= a@.len(),
            forall|j: int| 0 <= j < i ==> a@[j] == b@[j],
        decreases a@.len() - i,
    {
        if a[i] != b[i] {
            return false;
        }
        i += 1;
    }
    assert(a@ =~= b@);
    true
}

impl AccountId {
    /// The account known by `bytes`.
    pub fn new(bytes: Vec<u8>) -> (id: AccountId)
        ensures
            id@ == bytes@,
    {
        AccountId { bytes }
    }

    /// Whether `self` and `other` name the same account.
    pub fn same(&self, other: &AccountId) -> (same: bool)
        ensures
            same == (self@ == other@),
    {
        bytes_equal(self.bytes.as_slice(), other.bytes.as_slice())
    }
}

impl Clone for AccountId {
    fn clone(&self) -> (id: AccountId)
        ensures
            id@ == self@,
    {
        AccountId { bytes: self.bytes.clone() }
    }
}

} // verus!
