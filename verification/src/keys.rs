//! Public keys, signatures and the keys of the global state.

use crate::collections::MapKey;
use crate::hash::{hash, same_bytes, Digest};
use crate::ordered::{bytes_before, OrdKey};
use crate::text::append_hex;
use vstd::prelude::*;
use vstd::string::StringExecFns;

verus! {

/// A public asymmetric key.
#[derive(Clone, Copy, Debug, PartialOrd, Ord, Hash)]
pub enum PublicKey {
    /// Ed25519 public key.
    Ed25519([u8; 32]),
    /// Secp256k1 public key, compressed.
    Secp256k1([u8; 33]),
}

impl PublicKey {
    /// The raw bytes of the key.
    pub open spec fn bytes(self) -> Seq<u8> {
        match self {
            PublicKey::Ed25519(k) => k@,
            PublicKey::Secp256k1(k) => k@,
        }
    }

    /// The name of the key's algorithm, in ASCII.
    pub open spec fn algorithm(self) -> Seq<u8> {
        match self {
            PublicKey::Ed25519(_) => seq![101u8, 100u8, 50u8, 53u8, 53u8, 49u8, 57u8],
            PublicKey::Secp256k1(_) => seq![
                115u8,
                101u8,
                99u8,
                112u8,
                50u8,
                53u8,
                54u8,
                107u8,
                49u8,
            ],
        }
    }
}

/// Returns whether two public keys are the same.
fn same_public_key(a: &PublicKey, b: &PublicKey) -> (r: bool)
    ensures
        r == (*a == *b),
{
    match (a, b) {
        (PublicKey::Ed25519(x), PublicKey::Ed25519(y)) => same_bytes(x, y),
        (PublicKey::Secp256k1(x), PublicKey::Secp256k1(y)) => same_bytes(x, y),
        _ => false,
    }
}

impl PartialEq for PublicKey {
    fn eq(&self, other: &PublicKey) -> (r: bool) {
        same_public_key(self, other)
    }
}

impl Eq for PublicKey {

}

impl vstd::std_specs::cmp::PartialEqSpecImpl for PublicKey {
    open spec fn obeys_eq_spec() -> bool {
        true
    }

    open spec fn eq_spec(&self, other: &PublicKey) -> bool {
        *self == *other
    }
}

impl MapKey for PublicKey {
    fn same(&self, other: &PublicKey) -> (b: bool) {
        same_public_key(self, other)
    }
}

/// Public keys are ordered by algorithm, then by their bytes.
impl OrdKey for PublicKey {
    open spec fn before(self, other: PublicKey) -> bool {
        match (self, other) {
            (PublicKey::Ed25519(a), PublicKey::Ed25519(b)) => crate::ordered::lex_less(a@, b@),
            (PublicKey::Secp256k1(a), PublicKey::Secp256k1(b)) => crate::ordered::lex_less(a@, b@),
            (PublicKey::Ed25519(_), PublicKey::Secp256k1(_)) => true,
            (PublicKey::Secp256k1(_), PublicKey::Ed25519(_)) => false,
        }
    }

    proof fn lemma_order(a: PublicKey, b: PublicKey, c: PublicKey) {
        crate::ordered::lemma_lex_order(a.bytes(), b.bytes(), c.bytes());
        match (a, b) {
            (PublicKey::Ed25519(x), PublicKey::Ed25519(y)) => {
                if x@ == y@ {
                    assert(x =~= y);
                }
            },
            (PublicKey::Secp256k1(x), PublicKey::Secp256k1(y)) => {
                if x@ == y@ {
                    assert(x =~= y);
                }
            },
            _ => {},
        }
    }

    fn precedes(&self, other: &PublicKey) -> (r: bool) {
        match (self, other) {
            (PublicKey::Ed25519(a), PublicKey::Ed25519(b)) => bytes_before(a, b),
            (PublicKey::Secp256k1(a), PublicKey::Secp256k1(b)) => bytes_before(a, b),
            (PublicKey::Ed25519(_), PublicKey::Secp256k1(_)) => true,
            (PublicKey::Secp256k1(_), PublicKey::Ed25519(_)) => false,
        }
    }
}

/// A signature made with a secret key.
#[derive(Clone, Copy, Debug)]
pub enum Signature {
    /// Ed25519 signature.
    Ed25519([u8; 64]),
    /// Secp256k1 signature.
    Secp256k1([u8; 64]),
}

impl PartialEq for Signature {
    fn eq(&self, other: &Signature) -> (r: bool) {
        let r = match (self, other) {
            (Signature::Ed25519(a), Signature::Ed25519(b)) => same_bytes(a, b),
            (Signature::Secp256k1(a), Signature::Secp256k1(b)) => same_bytes(a, b),
            _ => false,
        };
        assert(r == (*self == *other));
        r
    }
}

impl Eq for Signature {

}

impl vstd::std_specs::cmp::PartialEqSpecImpl for Signature {
    open spec fn obeys_eq_spec() -> bool {
        true
    }

    open spec fn eq_spec(&self, other: &Signature) -> bool {
        *self == *other
    }
}

/// The identifier of an account.
#[derive(Clone, Copy, Debug, PartialOrd, Ord, Hash)]
pub struct AccountHash(pub Digest);

impl PartialEq for AccountHash {
    fn eq(&self, other: &AccountHash) -> (r: bool) {
        self.0.same(&other.0)
    }
}

impl Eq for AccountHash {

}

impl vstd::std_specs::cmp::PartialEqSpecImpl for AccountHash {
    open spec fn obeys_eq_spec() -> bool {
        true
    }

    open spec fn eq_spec(&self, other: &AccountHash) -> bool {
        *self == *other
    }
}

impl MapKey for AccountHash {
    fn same(&self, other: &AccountHash) -> (b: bool) {
        self.0.same(&other.0)
    }
}

impl AccountHash {
    /// The account hash of a public key: the digest of the algorithm's name, a zero byte and the
    /// key's bytes.
    pub open spec fn of_public_key(key: PublicKey) -> Seq<u8> {
        crate::hash::blake2b_256(key.algorithm() + seq![0u8] + key.bytes())
    }

    /// The account hash of a public key, as a value of this type.
    pub open spec fn account_of(key: PublicKey) -> AccountHash {
        choose|a: AccountHash| #[trigger] a.0.0@ == AccountHash::of_public_key(key)
    }

    /// Returns the account hash of a public key.
    pub fn from_public_key(key: &PublicKey) -> (r: AccountHash)
        ensures
            r.0.0@ == AccountHash::of_public_key(*key),
            r == AccountHash::account_of(*key),
    {
        let mut data: Vec<u8> = match key {
            PublicKey::Ed25519(_) => vec![101, 100, 50, 53, 53, 49, 57, 0],
            PublicKey::Secp256k1(_) => vec![115, 101, 99, 112, 50, 53, 54, 107, 49, 0],
        };
        assert(data@ =~= key.algorithm() + seq![0u8]);
        match key {
            PublicKey::Ed25519(k) => data.extend_from_slice(k),
            PublicKey::Secp256k1(k) => data.extend_from_slice(k),
        }
        assert(data@ =~= key.algorithm() + seq![0u8] + key.bytes());
        let account = AccountHash(hash(data.as_slice()));
        proof {
            assert(account.0.0@ == AccountHash::of_public_key(*key));
            assert(account.0.0 =~= AccountHash::account_of(*key).0.0);
        }
        account
    }
}

/// A reference to a place in the global state, with access rights.
#[derive(Clone, Copy, Debug, PartialOrd, Ord, Hash)]
pub struct URef {
    /// The address.
    pub addr: [u8; 32],
    /// The access rights, as a bit set: read, write and add.
    pub access_rights: u8,
}

impl PartialEq for URef {
    fn eq(&self, other: &URef) -> (r: bool) {
        same_bytes(&self.addr, &other.addr) && self.access_rights == other.access_rights
    }
}

impl Eq for URef {

}

impl vstd::std_specs::cmp::PartialEqSpecImpl for URef {
    open spec fn obeys_eq_spec() -> bool {
        true
    }

    open spec fn eq_spec(&self, other: &URef) -> bool {
        *self == *other
    }
}

impl MapKey for URef {
    fn same(&self, other: &URef) -> (b: bool) {
        same_bytes(&self.addr, &other.addr) && self.access_rights == other.access_rights
    }
}

impl URef {
    /// The text of a reference: its address in hexadecimal and its access rights in octal.
    pub open spec fn formatted(self) -> Seq<char> {
        seq!['u', 'r', 'e', 'f', '-'] + crate::text::hex(self.addr@) + seq!['-'] + seq![
            crate::text::digit(self.access_rights as int / 64),
            crate::text::digit(self.access_rights as int / 8 % 8),
            crate::text::digit(self.access_rights as int % 8),
        ]
    }

    /// Returns the text of this reference.
    pub fn to_formatted_string(&self) -> (r: String)
        ensures
            r@ == self.formatted(),
    {
        let mut text = String::from_str("uref-");
        append_hex(&mut text, &self.addr);
        text.append("-");
        text.append(octal_digit(self.access_rights / 64));
        text.append(octal_digit(self.access_rights / 8 % 8));
        text.append(octal_digit(self.access_rights % 8));
        proof {
            reveal_strlit("uref-");
            reveal_strlit("-");
            assert("uref-"@ =~= seq!['u', 'r', 'e', 'f', '-']);
            assert("-"@ =~= seq!['-']);
        }
        assert(text@ =~= self.formatted());
        text
    }
}

/// Returns the text of one octal digit.
fn octal_digit(d: u8) -> (r: &'static str)
    requires
        d < 8,
    ensures
        r@ == seq![crate::text::digit(d as int)],
{
    crate::text::hex_digit_str(d)
}

/// A key of the global state.
#[derive(Clone, Copy, Debug)]
pub enum Key {
    /// An account.
    Account(AccountHash),
    /// A contract or a contract package.
    Hash([u8; 32]),
    /// A reference.
    URef(URef),
    /// A transfer.
    Transfer([u8; 32]),
    /// Information about a deploy.
    DeployInfo(Digest),
}

/// Returns whether two keys are the same.
fn same_key(a: &Key, b: &Key) -> (r: bool)
    ensures
        r == (*a == *b),
{
    match (a, b) {
        (Key::Account(x), Key::Account(y)) => x.same(y),
        (Key::Hash(x), Key::Hash(y)) => same_bytes(x, y),
        (Key::URef(x), Key::URef(y)) => x.same(y),
        (Key::Transfer(x), Key::Transfer(y)) => same_bytes(x, y),
        (Key::DeployInfo(x), Key::DeployInfo(y)) => x.same(y),
        _ => false,
    }
}

impl PartialEq for Key {
    fn eq(&self, other: &Key) -> (r: bool) {
        same_key(self, other)
    }
}

impl Eq for Key {

}

impl vstd::std_specs::cmp::PartialEqSpecImpl for Key {
    open spec fn obeys_eq_spec() -> bool {
        true
    }

    open spec fn eq_spec(&self, other: &Key) -> bool {
        *self == *other
    }
}

impl MapKey for Key {
    fn same(&self, other: &Key) -> (b: bool) {
        same_key(self, other)
    }
}

impl Key {
    /// Returns the reference, if the key is one.
    pub fn into_uref(self) -> (r: Option<URef>)
        ensures
            r == match self {
                Key::URef(uref) => Some(uref),
                _ => None,
            },
    {
        match self {
            Key::URef(uref) => Some(uref),
            _ => None,
        }
    }
}

/// An account is the hash of the name of the key's algorithm, a zero byte and the key's bytes. A reference
/// is written as its address in hexadecimal and its access rights in three octal digits.
pub proof fn law_accounts_and_references(key: PublicKey, account: AccountHash, uref: URef, i: int)
    requires
        account == AccountHash::account_of(key),
        exists|a: AccountHash| #[trigger] a.0.0@ == AccountHash::of_public_key(key),
        0 <= i < 32,
    ensures
        key matches PublicKey::Ed25519(k) ==> account.0.0@ == crate::hash::blake2b_256(
            "ed25519"@.map_values(|c: char| c as u8).push(0) + k@,
        ),
        key matches PublicKey::Secp256k1(k) ==> account.0.0@ == crate::hash::blake2b_256(
            "secp256k1"@.map_values(|c: char| c as u8).push(0) + k@,
        ),
        uref.formatted().len() == 73,
        uref.formatted().take(5) == "uref-"@,
        uref.formatted()[5 + 2 * i] == crate::text::hex(uref.addr@)[2 * i],
        uref.formatted()[6 + 2 * i] == crate::text::hex(uref.addr@)[2 * i + 1],
        uref.formatted()[69] == '-',
        (uref.formatted()[70] as int - '0' as int) * 64 + (uref.formatted()[71] as int - '0' as int) * 8 + (uref.formatted()[72] as int
            - '0' as int) == uref.access_rights,
{
    reveal_strlit("ed25519");
    reveal_strlit("secp256k1");
    reveal_strlit("uref-");
    assert("ed25519"@.map_values(|c: char| c as u8) =~= seq![101u8, 100u8, 50u8, 53u8, 53u8, 49u8, 57u8]);
    assert("secp256k1"@.map_values(|c: char| c as u8) =~= seq![115u8, 101u8, 99u8, 112u8, 50u8, 53u8, 54u8, 107u8, 49u8]);
    assert(key.algorithm() + seq![0u8] =~= key.algorithm().push(0));
    crate::text::law_hex_digits(uref.addr@, i);
    assert(uref.formatted().take(5) =~= "uref-"@);
}

/// Keys of the first algorithm stand before those of the second, and among themselves keys are ordered by
/// the first byte in which they differ.
pub proof fn law_keys_are_ordered(a: [u8; 32], b: [u8; 32], c: [u8; 33], d: [u8; 33], k: int, n: int)
    requires
        0 <= k < 32,
        forall|i: int| 0 <= i < k ==> #[trigger] a@[i] == b@[i],
        a@[k] < b@[k],
        0 <= n < 33,
        forall|i: int| 0 <= i < n ==> #[trigger] c@[i] == d@[i],
        c@[n] < d@[n],
    ensures
        PublicKey::Ed25519(a).before(PublicKey::Ed25519(b)),
        !PublicKey::Ed25519(b).before(PublicKey::Ed25519(a)),
        PublicKey::Secp256k1(c).before(PublicKey::Secp256k1(d)),
        !PublicKey::Secp256k1(d).before(PublicKey::Secp256k1(c)),
        PublicKey::Ed25519(a).before(PublicKey::Secp256k1(c)),
        !PublicKey::Secp256k1(c).before(PublicKey::Ed25519(a)),
{
    crate::ordered::law_first_difference_decides(a@, b@, k);
    crate::ordered::law_first_difference_decides(b@, a@, k);
    crate::ordered::law_first_difference_decides(c@, d@, n);
    crate::ordered::law_first_difference_decides(d@, c@, n);
}

} // verus!
