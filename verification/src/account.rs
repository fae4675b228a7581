use vstd::prelude::*;

verus! {

/// An opaque identity of a token holder.
///
/// The ledger compares identities exactly and never normalizes or validates
/// them; validating that a string names a real account is the host's concern.
/// In specifications an account is its character sequence (the view).
pub struct AccountId {
    id: String,
}

impl View for AccountId {
    type V = Seq<char>;

    closed spec fn view(&self) -> Seq<char> {
        self.id@
    }
}

impl AccountId {
    /// Wraps a raw identity string, unchanged.
    pub fn new(id: String) -> (r: AccountId)
        ensures
            r@ == id@,
    {
        AccountId { id }
    }

    /// Exact comparison of two identities.
    pub fn eq_view(&self, other: &AccountId) -> (r: bool)
        ensures
            r == (self@ == other@),
    {
        self.id == other.id
    }
}

impl Clone for AccountId {
    fn clone(&self) -> (r: Self)
        ensures
            r@ == self@,
    {
        AccountId { id: self.id.clone() }
    }
}

} // verus!
