//! The CBOR records kept in stable memory for token ids and accounts: a token id is an
//! unsigned integer item; an account is an array of two items, the owner's bytes and the
//! subaccount's bytes or null.
use vstd::prelude::*;

use crate::account::{raw_account, Account, AccountView};
use crate::blocks::WrappedNat;
use crate::bytes::{
    be_u16, be_u32, lemma_u16_be_roundtrip, lemma_u32_be_roundtrip, lemma_u64_be_roundtrip,
    get_u64_be, push_u64_be, read_u64_be, u16_be, u32_be, u64_be,
};
use crate::value::{limb_base, Nat};

verus! {

/// The major type of an unsigned integer.
pub const MAJOR_UNSIGNED: u8 = 0;

/// The major type of a byte string.
pub const MAJOR_BYTES: u8 = 2;

/// The major type of an array.
pub const MAJOR_ARRAY: u8 = 4;

/// The one byte of a `null`.
pub const CBOR_NULL: u8 = 0xf6;

/// The head of an array of indefinite length.
pub const CBOR_ARRAY_INDEFINITE: u8 = 0x9f;

/// The first byte of a head: the major type in its top three bits, `info` in the low five.
pub open spec fn initial_byte(major: u8, info: u8) -> u8 {
    (major << 5u8) | info
}

/// The head of an item of major type `major` with argument `x`, in its shortest form.
pub open spec fn cbor_head(major: u8, x: u64) -> Seq<u8> {
    if x < 24 {
        seq![initial_byte(major, x as u8)]
    } else if x <= 0xff {
        seq![initial_byte(major, 24), x as u8]
    } else if x <= 0xffff {
        seq![initial_byte(major, 25)] + u16_be(x as u16)
    } else if x <= 0xffff_ffff {
        seq![initial_byte(major, 26)] + u32_be(x as u32)
    } else {
        seq![initial_byte(major, 27)] + u64_be(x)
    }
}

/// A byte string item: its head, then its bytes.
pub open spec fn bytes_item(s: Seq<u8>) -> Seq<u8> {
    cbor_head(MAJOR_BYTES, s.len() as u64) + s
}

/// The record of a token id.
pub open spec fn nat_record(x: u64) -> Seq<u8> {
    cbor_head(MAJOR_UNSIGNED, x)
}

/// The record of an account.
pub open spec fn account_record(a: AccountView) -> Seq<u8> {
    cbor_head(MAJOR_ARRAY, 2) + bytes_item(a.0) + match a.1 {
        Some(s) => bytes_item(s),
        None => seq![CBOR_NULL],
    }
}

/// The argument of a head whose low five bits are `info`, read from `b` at `p`, and the
/// position after it; nothing where the bytes run out or `info` names no definite argument.
pub open spec fn head_argument(b: Seq<u8>, p: int, info: u8) -> Option<(u64, int)> {
    if info < 24 {
        Some((info as u64, p))
    } else if info == 24 {
        if p + 1 <= b.len() { Some((b[p] as u64, p + 1)) } else { None }
    } else if info == 25 {
        if p + 2 <= b.len() { Some((be_u16(b[p], b[p + 1]) as u64, p + 2)) } else { None }
    } else if info == 26 {
        if p + 4 <= b.len() { Some((be_u32(b[p], b[p + 1], b[p + 2], b[p + 3]) as u64, p + 4)) } else { None }
    } else if info == 27 {
        if p + 8 <= b.len() { Some((read_u64_be(b, p), p + 8)) } else { None }
    } else {
        None
    }
}

/// A head of major type `major` at `p`: its argument and the position after it.
pub open spec fn read_head(b: Seq<u8>, p: int, major: u8) -> Option<(u64, int)> {
    if 0 <= p < b.len() && b[p] >> 5u8 == major {
        head_argument(b, p + 1, b[p] & 31u8)
    } else {
        None
    }
}

/// A byte string of definite length at `p`: its bytes and the position after it.
pub open spec fn read_bytes(b: Seq<u8>, p: int) -> Option<(Seq<u8>, int)> {
    match read_head(b, p, MAJOR_BYTES) {
        Some((n, q)) => if q + n <= b.len() { Some((b.subrange(q, q + n), q + n)) } else { None },
        None => None,
    }
}

/// A token id at `p`: it and the position after it.
pub open spec fn read_nat(b: Seq<u8>, p: int) -> Option<(u64, int)> {
    read_head(b, p, MAJOR_UNSIGNED)
}

/// What reading an account gives.
pub ghost enum AccountDecoding {
    /// The account and the position after it.
    Decoded(AccountView, int),
    /// The bytes hold no account record.
    Malformed,
    /// The bytes hold an account record that no account can take: an array of indefinite
    /// length, an owner of more than 29 bytes, or a subaccount of other than 32 bytes.
    Unsupported,
}

/// The subaccount item after the owner, at `r`: null or a byte string.
pub open spec fn read_subaccount(b: Seq<u8>, r: int) -> Option<(Option<Seq<u8>>, int)> {
    if 0 <= r < b.len() && b[r] == CBOR_NULL {
        Some((None, r + 1))
    } else {
        match read_bytes(b, r) {
            Some((s, t)) => Some((Some(s), t)),
            None => None,
        }
    }
}

/// An account at `p`.
pub open spec fn read_account(b: Seq<u8>, p: int) -> AccountDecoding {
    if 0 <= p < b.len() && b[p] == CBOR_ARRAY_INDEFINITE {
        AccountDecoding::Unsupported
    } else {
        match read_head(b, p, MAJOR_ARRAY) {
            None => AccountDecoding::Malformed,
            Some((n, q)) => if n != 2 {
                AccountDecoding::Malformed
            } else {
                match read_bytes(b, q) {
                    None => AccountDecoding::Malformed,
                    Some((owner, r)) => match read_subaccount(b, r) {
                        None => AccountDecoding::Malformed,
                        Some((sub, t)) => if owner.len() > 29 {
                            AccountDecoding::Unsupported
                        } else if sub matches Some(s) && s.len() != 32 {
                            AccountDecoding::Unsupported
                        } else {
                            AccountDecoding::Decoded((owner, sub), t)
                        },
                    },
                }
            },
        }
    }
}

proof fn lemma_initial_byte(major: u8, info: u8)
    requires
        major < 8,
        info < 32,
    ensures
        initial_byte(major, info) >> 5u8 == major,
        initial_byte(major, info) & 31u8 == info,
{
    assert(((major << 5u8) | info) >> 5u8 == major && ((major << 5u8) | info) & 31u8 == info) by (bit_vector)
        requires
            major < 8,
            info < 32,
    ;
}

/// A head read where it was written gives back its argument, and ends where the head does.
pub proof fn lemma_read_head(pre: Seq<u8>, major: u8, x: u64, post: Seq<u8>)
    requires
        major < 8,
    ensures
        read_head(pre + cbor_head(major, x) + post, pre.len() as int, major) == Some(
            (x, pre.len() + cbor_head(major, x).len() as int),
        ),
{
    let h = cbor_head(major, x);
    let b = pre + h + post;
    let p = pre.len() as int;
    assert forall|i: int| 0 <= i < h.len() implies b[p + i] == h[i] by {}
    if x < 24 {
        lemma_initial_byte(major, x as u8);
    } else if x <= 0xff {
        lemma_initial_byte(major, 24);
    } else if x <= 0xffff {
        lemma_initial_byte(major, 25);
        lemma_u16_be_roundtrip(x as u16);
        assert(b[p + 1] == u16_be(x as u16)[0] && b[p + 2] == u16_be(x as u16)[1]);
    } else if x <= 0xffff_ffff {
        lemma_initial_byte(major, 26);
        lemma_u32_be_roundtrip(x as u32);
        assert(b[p + 1] == u32_be(x as u32)[0] && b[p + 2] == u32_be(x as u32)[1]);
        assert(b[p + 3] == u32_be(x as u32)[2] && b[p + 4] == u32_be(x as u32)[3]);
    } else {
        lemma_initial_byte(major, 27);
        lemma_u64_be_roundtrip(x);
        let e = u64_be(x);
        assert(b[p + 1] == e[0] && b[p + 2] == e[1] && b[p + 3] == e[2] && b[p + 4] == e[3]);
        assert(b[p + 5] == e[4] && b[p + 6] == e[5] && b[p + 7] == e[6] && b[p + 8] == e[7]);
    }
}

/// A byte string read where it was written gives back its bytes, and ends where it does.
pub proof fn lemma_read_bytes(pre: Seq<u8>, s: Seq<u8>, post: Seq<u8>)
    requires
        s.len() <= u64::MAX,
    ensures
        read_bytes(pre + bytes_item(s) + post, pre.len() as int) == Some((s, pre.len() + bytes_item(s).len() as int)),
{
    let h = cbor_head(MAJOR_BYTES, s.len() as u64);
    let b = pre + bytes_item(s) + post;
    assert(b =~= pre + h + (s + post));
    lemma_read_head(pre, MAJOR_BYTES, s.len() as u64, s + post);
    let q = pre.len() + h.len() as int;
    assert(b.subrange(q, q + s.len() as int) =~= s);
}

/// A token id read back from its record is the same id, and the whole record is read.
pub proof fn law_nat_record_read_back(x: u64)
    ensures
        read_nat(nat_record(x), 0) == Some((x, nat_record(x).len() as int)),
{
    lemma_read_head(Seq::empty(), MAJOR_UNSIGNED, x, Seq::empty());
    assert(Seq::<u8>::empty() + cbor_head(MAJOR_UNSIGNED, x) + Seq::<u8>::empty() =~= nat_record(x));
}

/// An account whose owner is a principal's bytes (at most 29) and whose subaccount, if any,
/// has 32 bytes is read back from its record as it was, and the whole record is read.
pub proof fn law_account_record_read_back(a: AccountView)
    requires
        a.0.len() <= 29,
        a.1 matches Some(s) ==> s.len() == 32,
    ensures
        read_account(account_record(a), 0) == AccountDecoding::Decoded(a, account_record(a).len() as int),
{
    let b = account_record(a);
    let head = cbor_head(MAJOR_ARRAY, 2);
    let owner = bytes_item(a.0);
    let sub = match a.1 {
        Some(s) => bytes_item(s),
        None => seq![CBOR_NULL],
    };
    assert(b =~= Seq::<u8>::empty() + head + (owner + sub));
    assert(0x9fu8 & 31u8 == 31u8 && 0xf6u8 >> 5u8 == 7u8) by (bit_vector);
    lemma_read_head(Seq::empty(), MAJOR_ARRAY, 2, owner + sub);
    lemma_initial_byte(MAJOR_ARRAY, 2);
    assert(b =~= head + owner + sub);
    lemma_read_bytes(head, a.0, sub);
    let r = head.len() + owner.len() as int;
    match a.1 {
        Some(s) => {
            assert(b =~= (head + owner) + bytes_item(s) + Seq::<u8>::empty());
            lemma_read_bytes(head + owner, s, Seq::empty());
            lemma_initial_byte(MAJOR_BYTES, 24);
        },
        None => {
            assert(b[r] == CBOR_NULL);
        },
    }
}

/// Appends the head of an item of major type `major` with argument `x`.
fn push_head(out: &mut Vec<u8>, major: u8, x: u64)
    requires
        major < 8,
    ensures
        final(out)@ == old(out)@ + cbor_head(major, x),
{
    let t: u8 = major << 5u8;
    if x < 24 {
        out.push(t | (x as u8));
    } else if x <= 0xff {
        out.push(t | 24u8);
        out.push(x as u8);
    } else if x <= 0xffff {
        let y: u16 = x as u16;
        out.push(t | 25u8);
        out.push((y >> 8u16) as u8);
        out.push(y as u8);
    } else if x <= 0xffff_ffff {
        let y: u32 = x as u32;
        out.push(t | 26u8);
        out.push((y >> 24u32) as u8);
        out.push((y >> 16u32) as u8);
        out.push((y >> 8u32) as u8);
        out.push(y as u8);
    } else {
        out.push(t | 27u8);
        push_u64_be(out, x);
    }
    assert(out@ =~= old(out)@ + cbor_head(major, x));
}

/// Appends a byte string item.
fn push_bytes_item(out: &mut Vec<u8>, s: &Vec<u8>)
    ensures
        final(out)@ == old(out)@ + bytes_item(s@),
{
    push_head(out, MAJOR_BYTES, s.len() as u64);
    let ghost start = out@;
    let mut i: usize = 0;
    while i < s.len()
        invariant
            i <= s@.len(),
            out@ == start + s@.subrange(0, i as int),
        decreases s@.len() - i,
    {
        out.push(s[i]);
        i = i + 1;
        assert(out@ =~= start + s@.subrange(0, i as int));
    }
    assert(s@.subrange(0, s@.len() as int) =~= s@);
    assert(out@ =~= old(out)@ + bytes_item(s@));
}

/// Reads a head of major type `major` at `p`.
fn read_head_at(b: &[u8], p: usize, major: u8) -> (r: Option<(u64, usize)>)
    ensures
        r matches Some((x, q)) ==> read_head(b@, p as int, major) == Some((x, q as int)) && q <= b@.len(),
        r is None ==> read_head(b@, p as int, major) is None,
{
    let n = b.len();
    if p >= n {
        return None;
    }
    let first = b[p];
    if first >> 5u8 != major {
        return None;
    }
    let info = first & 31u8;
    let q = p + 1;
    if info < 24 {
        Some((info as u64, q))
    } else if info == 24 {
        if q < n {
            Some((b[q] as u64, q + 1))
        } else {
            None
        }
    } else if info == 25 {
        if n - q >= 2 {
            let y: u16 = ((b[q] as u16) << 8u16) | (b[q + 1] as u16);
            Some((y as u64, q + 2))
        } else {
            None
        }
    } else if info == 26 {
        if n - q >= 4 {
            let y: u32 = ((b[q] as u32) << 24u32) | ((b[q + 1] as u32) << 16u32) | ((b[q + 2] as u32) << 8u32)
                | (b[q + 3] as u32);
            Some((y as u64, q + 4))
        } else {
            None
        }
    } else if info == 27 {
        if n - q >= 8 {
            Some((get_u64_be(b, q), q + 8))
        } else {
            None
        }
    } else {
        None
    }
}

/// Reads a byte string of definite length at `p`.
fn read_bytes_at(b: &[u8], p: usize) -> (r: Option<(Vec<u8>, usize)>)
    ensures
        r matches Some((s, q)) ==> read_bytes(b@, p as int) == Some((s@, q as int)),
        r is None ==> read_bytes(b@, p as int) is None,
{
    match read_head_at(b, p, MAJOR_BYTES) {
        None => None,
        Some((len, q)) => {
            let avail: usize = b.len() - q;
            if len > avail as u64 {
                return None;
            }
            let end: usize = q + len as usize;
            let mut out: Vec<u8> = Vec::new();
            let mut i: usize = q;
            while i < end
                invariant
                    q <= i <= end,
                    end <= b@.len(),
                    out@ == b@.subrange(q as int, i as int),
                decreases end - i,
            {
                out.push(b[i]);
                i = i + 1;
                assert(out@ =~= b@.subrange(q as int, i as int));
            }
            Some((out, end))
        },
    }
}

impl WrappedNat {
    /// Appends the record of this token id, an unsigned integer item; the id must fit in a
    /// `u64`.
    pub fn encode(&self, out: &mut Vec<u8>)
        requires
            self.0.value() < limb_base(),
        ensures
            final(out)@ == old(out)@ + nat_record(self.0.value() as u64),
    {
        match self.0.to_u64() {
            Some(x) => push_head(out, MAJOR_UNSIGNED, x),
            None => {},
        }
    }

    /// The record of this token id, as a new byte vector.
    pub fn to_bytes(&self) -> (r: Vec<u8>)
        requires
            self.0.value() < limb_base(),
        ensures
            r@ == nat_record(self.0.value() as u64),
    {
        let mut out: Vec<u8> = Vec::new();
        self.encode(&mut out);
        assert(out@ =~= nat_record(self.0.value() as u64));
        out
    }

    /// The record of this token id, taking the id.
    pub fn into_bytes(self) -> (r: Vec<u8>)
        requires
            self.0.value() < limb_base(),
        ensures
            r@ == nat_record(self.0.value() as u64),
    {
        self.to_bytes()
    }

    /// Reads a token id at `pos`: the id and the position after
    /// it, or `None` where the bytes hold no unsigned integer there.
    pub fn decode(b: &[u8], pos: usize) -> (r: Option<(WrappedNat, usize)>)
        ensures
            r is None <==> read_nat(b@, pos as int) is None,
            r matches Some((w, q)) ==> read_nat(b@, pos as int) == Some((w.0.value() as u64, q as int))
                && w.0.value() < limb_base(),
    {
        match read_head_at(b, pos, MAJOR_UNSIGNED) {
            Some((x, q)) => Some((WrappedNat(Nat::from_u64(x)), q)),
            None => None,
        }
    }

    /// Reads back a stored token-id record from its start.
    pub fn from_bytes(bytes: &[u8]) -> (r: WrappedNat)
        requires
            read_nat(bytes@, 0) is Some,
        ensures
            read_nat(bytes@, 0) matches Some((x, _)) && r.0.value() == x,
    {
        match WrappedNat::decode(bytes, 0) {
            Some((w, _)) => w,
            None => WrappedNat(Nat::from_u64(0)),
        }
    }
}

/// An account as stable memory keeps it.
#[derive(Debug)]
pub struct WrappedAccount(pub Account);

impl View for WrappedAccount {
    type V = AccountView;

    /// The account's fields as they are written: a stored record keeps the subaccount as it
    /// was given, the default one included.
    open spec fn view(&self) -> AccountView {
        raw_account(self.0)
    }
}

impl WrappedAccount {
    /// Wraps an account.
    pub fn from(account: Account) -> (r: WrappedAccount)
        ensures
            r@ == raw_account(account),
            r.0@ == account@,
    {
        WrappedAccount(account)
    }

    /// Appends the record of this account: an array of two items, the owner's bytes and the
    /// subaccount's bytes or null.
    pub fn encode(&self, out: &mut Vec<u8>)
        ensures
            final(out)@ == old(out)@ + account_record(self@),
    {
        let ghost start = out@;
        push_head(out, MAJOR_ARRAY, 2);
        push_bytes_item(out, &self.0.owner);
        match &self.0.subaccount {
            Some(s) => push_bytes_item(out, s),
            None => out.push(CBOR_NULL),
        }
        assert(out@ =~= start + account_record(self@));
    }

    /// The record of this account, as a new byte vector.
    pub fn to_bytes(&self) -> (r: Vec<u8>)
        ensures
            r@ == account_record(self@),
    {
        let mut out: Vec<u8> = Vec::new();
        self.encode(&mut out);
        assert(out@ =~= account_record(self@));
        out
    }

    /// The record of this account, taking the account.
    pub fn into_bytes(self) -> (r: Vec<u8>)
        ensures
            r@ == account_record(self@),
    {
        self.to_bytes()
    }

    /// Reads an account at `pos`: the account and the position
    /// after it, or `None` where the bytes hold no account record there. Records that no
    /// account can take are left out.
    pub fn decode(b: &[u8], pos: usize) -> (r: Option<(WrappedAccount, usize)>)
        requires
            !(read_account(b@, pos as int) is Unsupported),
        ensures
            r is None <==> read_account(b@, pos as int) is Malformed,
            r matches Some((a, q)) ==> read_account(b@, pos as int) == AccountDecoding::Decoded(a@, q as int),
    {
        if pos < b.len() && b[pos] == CBOR_ARRAY_INDEFINITE {
            return None;
        }
        let q = match read_head_at(b, pos, MAJOR_ARRAY) {
            Some((n, q)) => {
                if n != 2 {
                    return None;
                }
                q
            },
            None => {
                return None;
            },
        };
        let (owner, r) = match read_bytes_at(b, q) {
            Some(x) => x,
            None => {
                return None;
            },
        };
        let (subaccount, t) = if r < b.len() && b[r] == CBOR_NULL {
            (None, r + 1)
        } else {
            match read_bytes_at(b, r) {
                Some((s, t)) => (Some(s), t),
                None => {
                    return None;
                },
            }
        };
        Some((WrappedAccount(Account { owner, subaccount }), t))
    }

    /// Reads back a stored account record from its start.
    pub fn from_bytes(bytes: &[u8]) -> (r: WrappedAccount)
        requires
            read_account(bytes@, 0) is Decoded,
        ensures
            AccountDecoding::Decoded(r@, read_account(bytes@, 0)->Decoded_1) == read_account(bytes@, 0),
    {
        match WrappedAccount::decode(bytes, 0) {
            Some((a, _)) => a,
            None => WrappedAccount(Account { owner: Vec::new(), subaccount: None }),
        }
    }
}

} // verus!
