//! Ledger accounts: a principal and an optional subaccount.
use vstd::prelude::*;

verus! {

/// An ICRC-1 account: the bytes of its owner principal and its optional subaccount.
#[derive(Clone, Debug)]
pub struct Account {
    pub owner: Vec<u8>,
    pub subaccount: Option<Vec<u8>>,
}

/// What an account is: owner bytes and subaccount bytes.
pub type AccountView = (Seq<u8>, Option<Seq<u8>>);

/// The subaccount bytes, if any.
pub open spec fn subaccount_view(s: Option<Vec<u8>>) -> Option<Seq<u8>> {
    match s {
        Some(v) => Some(v@),
        None => None,
    }
}

/// The default subaccount: 32 zero bytes.
pub open spec fn default_subaccount() -> Seq<u8> {
    Seq::new(32, |i: int| 0u8)
}

/// The subaccount as ICRC-1 compares it: the default subaccount counts as no subaccount.
pub open spec fn canonical_subaccount(s: Option<Seq<u8>>) -> Option<Seq<u8>> {
    match s {
        Some(b) => if b == default_subaccount() { None } else { Some(b) },
        None => None,
    }
}

/// The account with owner `owner` and subaccount `sub`, as ICRC-1 identifies it.
pub open spec fn account_view_of(owner: Seq<u8>, sub: Option<Seq<u8>>) -> AccountView {
    (owner, canonical_subaccount(sub))
}

/// What an account is, as ICRC-1 identifies it: two accounts are the same exactly where
/// their views are, so an account without subaccount and the same owner's account with the
/// default subaccount are one account.
impl View for Account {
    type V = AccountView;

    open spec fn view(&self) -> AccountView {
        account_view_of(self.owner@, subaccount_view(self.subaccount))
    }
}

/// The fields of an account as they are written, the subaccount unchanged.
pub open spec fn raw_account(a: Account) -> AccountView {
    (a.owner@, subaccount_view(a.subaccount))
}

/// Whether a subaccount is absent or the default one.
pub fn is_default_subaccount(s: &Option<Vec<u8>>) -> (r: bool)
    ensures
        r == (canonical_subaccount(subaccount_view(*s)) is None),
{
    match s {
        None => true,
        Some(b) => {
            if b.len() != 32 {
                assert(default_subaccount().len() == 32);
                return false;
            }
            let mut i: usize = 0;
            while i < 32
                invariant
                    b@.len() == 32,
                    subaccount_view(*s) == Some(b@),
                    i <= 32,
                    forall|j: int| 0 <= j < i ==> b@[j] == 0u8,
                decreases 32 - i,
            {
                if b[i] != 0u8 {
                    assert(b@[i as int] != default_subaccount()[i as int]);
                    assert(b@ != default_subaccount());
                    return false;
                }
                i = i + 1;
            }
            assert(b@ =~= default_subaccount());
            true
        },
    }
}

/// The bytes of the anonymous principal.
pub open spec fn anonymous_owner() -> Seq<u8> {
    seq![4u8]
}

/// The account of the anonymous principal, without subaccount.
pub open spec fn anonymous_account() -> AccountView {
    (anonymous_owner(), None)
}

/// ICRC-1 account identity: the account of an owner with the default subaccount is the
/// account of that owner without subaccount; with any other subaccount it is a different one;
/// and accounts of different owners differ.
pub proof fn law_default_subaccount_is_no_subaccount(owner: Seq<u8>, other: Seq<u8>, sub: Seq<u8>)
    ensures
        account_view_of(owner, Some(default_subaccount())) == account_view_of(owner, None),
        sub != default_subaccount() ==> account_view_of(owner, Some(sub)) != account_view_of(owner, None),
        owner != other ==> account_view_of(owner, Some(sub)) != account_view_of(other, Some(sub)),
{
}

/// Whether two byte vectors hold the same bytes.
pub fn same_bytes(a: &Vec<u8>, b: &Vec<u8>) -> (r: bool)
    ensures
        r == (a@ == b@),
{
    let n = a.len();
    if n != b.len() {
        return false;
    }
    let mut i: usize = 0;
    while i < n
        invariant
            n == a@.len(),
            n == b@.len(),
            i <= n,
            forall|j: int| 0 <= j < i ==> a@[j] == b@[j],
        decreases n - i,
    {
        if a[i] != b[i] {
            return false;
        }
        i = i + 1;
    }
    assert(a@ =~= b@);
    true
}

/// Whether two accounts are the same ICRC-1 account.
pub fn same_account(a: &Account, b: &Account) -> (r: bool)
    ensures
        r == (a@ == b@),
{
    if !same_bytes(&a.owner, &b.owner) {
        return false;
    }
    let da = is_default_subaccount(&a.subaccount);
    let db = is_default_subaccount(&b.subaccount);
    if da || db {
        return da && db;
    }
    match (&a.subaccount, &b.subaccount) {
        (Some(x), Some(y)) => same_bytes(x, y),
        _ => false,
    }
}

/// A copy of an account.
pub fn copy_account(a: &Account) -> (r: Account)
    ensures
        r@ == a@,
{
    let owner = copy_bytes(&a.owner);
    let subaccount = match &a.subaccount {
        Some(s) => Some(copy_bytes(s)),
        None => None,
    };
    Account { owner, subaccount }
}

/// A copy of a byte vector.
pub fn copy_bytes(a: &Vec<u8>) -> (r: Vec<u8>)
    ensures
        r@ == a@,
{
    let mut r: Vec<u8> = Vec::new();
    let mut i: usize = 0;
    while i < a.len()
        invariant
            i <= a@.len(),
            r@ == a@.subrange(0, i as int),
        decreases a@.len() - i,
    {
        r.push(a[i]);
        i = i + 1;
        assert(r@ =~= a@.subrange(0, i as int));
    }
    assert(a@.subrange(0, a@.len() as int) =~= a@);
    r
}

/// The account of `owner` without subaccount.
pub fn account_of_owner(owner: &Vec<u8>) -> (r: Account)
    ensures
        r@ == (owner@, None::<Seq<u8>>),
{
    Account { owner: copy_bytes(owner), subaccount: None }
}

/// Whether `a` is the anonymous account (with no subaccount or the default one).
pub fn is_anonymous_account(a: &Account) -> (r: bool)
    ensures
        r == (a@ == anonymous_account()),
{
    let r = a.owner.len() == 1 && a.owner[0] == 4u8 && is_default_subaccount(&a.subaccount);
    proof {
        if r {
            assert(a.owner@ =~= anonymous_owner());
        }
    }
    r
}

/// The account written by the ICRC-1 textual encoding `s`, where `s` is one: the principal
/// text, optionally followed by `-` and a checksum, `.` and a hexadecimal subaccount.
pub uninterp spec fn account_from_text(s: Seq<char>) -> Option<AccountView>;

/// `<icrc_ledger_types::icrc1::account::Account as FromStr>::from_str`: parses the ICRC-1
/// textual encoding of an account. The claim is only that the result is a function of the
/// text: the grammar, the base-32 principal and the CRC-32 checksum are the crate's.
#[verifier::external_body]
pub(crate) fn parse_account_text(s: &str) -> (r: Option<Account>)
    ensures
        r is None <==> account_from_text(s@) is None,
        r matches Some(a) ==> account_from_text(s@) == Some(a@),
{
    match <icrc_ledger_types::icrc1::account::Account as std::str::FromStr>::from_str(s) {
        Ok(a) => Some(
            Account { owner: a.owner.as_slice().to_vec(), subaccount: a.subaccount.map(|b| b.to_vec()) },
        ),
        Err(_) => None,
    }
}

} // verus!
