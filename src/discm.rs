//! Discriminators: the fixed-width tags that tell a decoder which declared
//! account or instruction a binary blob is.
use vstd::prelude::*;
use vstd::utf8::encode_utf8;
use crate::idl::AnchorIdl;
use crate::resolver::IdlError;
use crate::types::{NamedAccount, NamedInstruction};

verus! {

/// Width in bytes of a derived discriminator.
pub const DISCM_LEN: usize = 8;

/// The SHA-256 digest of `data`.
pub uninterp spec fn sha256_of(data: Seq<u8>) -> Seq<u8>;

/// Relies on sha2::Sha256 (through digest::Digest::digest): the 32-byte
/// SHA-256 digest of `data`.
#[verifier::external_body]
fn sha256(data: &[u8]) -> (r: Vec<u8>)
    ensures
        r@ == sha256_of(data@),
        r@.len() == 32,
{
    <sha2::Sha256 as sha2::Digest>::digest(data).to_vec()
}

/// The tag derived for `name` under the namespace prefix `ns` (`"account:"`,
/// `"global:"`, `"event:"`): the first bytes of the digest of the two, joined.
pub open spec fn spec_discm(ns: Seq<char>, name: Seq<char>) -> Seq<u8> {
    sha256_of(encode_utf8(ns) + encode_utf8(name)).take(DISCM_LEN as int)
}

/// Derives the tag of `name` under the namespace prefix `ns`.
pub fn discriminator(ns: &str, name: &str) -> (r: Vec<u8>)
    ensures
        r@ == spec_discm(ns@, name@),
        r@.len() == DISCM_LEN,
{
    let mut pre: Vec<u8> = Vec::new();
    let a = ns.as_bytes();
    let b = name.as_bytes();
    let mut i: usize = 0;
    while i < a.len()
        invariant
            i <= a@.len(),
            pre@ == a@.take(i as int),
        decreases a.len() - i,
    {
        pre.push(a[i]);
        i += 1;
        assert(pre@ =~= a@.take(i as int));
    }
    let mut j: usize = 0;
    while j < b.len()
        invariant
            i == a@.len(),
            j <= b@.len(),
            pre@ == a@ + b@.take(j as int),
        decreases b.len() - j,
    {
        pre.push(b[j]);
        j += 1;
        assert(pre@ =~= a@ + b@.take(j as int));
    }
    assert(pre@ =~= encode_utf8(ns@) + encode_utf8(name@));
    let digest = sha256(pre.as_slice());
    let mut r: Vec<u8> = Vec::new();
    let mut k: usize = 0;
    while k < DISCM_LEN
        invariant
            digest@.len() == 32,
            k <= DISCM_LEN,
            r@ == digest@.take(k as int),
        decreases DISCM_LEN - k,
    {
        r.push(digest[k]);
        k += 1;
        assert(r@ =~= digest@.take(k as int));
    }
    r
}

/// Deriving a tag twice from the same namespace and name gives the same bytes.
pub proof fn lemma_discriminator_stable(ns1: Seq<char>, name1: Seq<char>, ns2: Seq<char>, name2: Seq<char>)
    requires
        ns1 == ns2,
        name1 == name2,
    ensures
        spec_discm(ns1, name1) == spec_discm(ns2, name2),
{
}

/// Two distinct names of `names` get the same tag under `ns`.
pub open spec fn collides(ns: Seq<char>, names: Seq<Seq<char>>) -> bool {
    exists|i: int, j: int|
        0 <= i < j < names.len() && names[i] != names[j] && #[trigger] spec_discm(ns, names[i])
            == #[trigger] spec_discm(ns, names[j])
}

fn bytes_eq(a: &Vec<u8>, b: &Vec<u8>) -> (r: bool)
    ensures
        r == (a@ == b@),
{
    if a.len() != b.len() {
        return false;
    }
    let mut i: usize = 0;
    while i < a.len()
        invariant
            a.len() == b.len(),
            i <= a.len(),
            forall|k: int| 0 <= k < i ==> a@[k] == b@[k],
        decreases a.len() - i,
    {
        if a[i] != b[i] {
            return false;
        }
        i += 1;
    }
    assert(a@ =~= b@);
    true
}

/// The first pair of distinct names of `names` whose tags under `ns` coincide.
pub fn find_collision(ns: &str, names: &Vec<String>) -> (r: Option<(usize, usize)>)
    ensures
        match r {
            Some((i, j)) => i < j < names.len() && names@[i as int]@ != names@[j as int]@
                && spec_discm(ns@, names@[i as int]@) == spec_discm(ns@, names@[j as int]@),
            None => !collides(ns@, names@.map_values(|s: String| s@)),
        },
{
    let ghost ns_view = names@.map_values(|s: String| s@);
    let mut tags: Vec<Vec<u8>> = Vec::new();
    while tags.len() < names.len()
        invariant
            tags.len() <= names.len(),
            forall|k: int| 0 <= k < tags.len() ==> #[trigger] tags@[k]@ == spec_discm(ns@, names@[k]@),
        decreases names.len() - tags.len(),
    {
        let t = discriminator(ns, names[tags.len()].as_str());
        tags.push(t);
    }
    let mut j: usize = 0;
    while j < names.len()
        invariant
            tags.len() == names.len(),
            ns_view == names@.map_values(|s: String| s@),
            forall|k: int| 0 <= k < tags.len() ==> #[trigger] tags@[k]@ == spec_discm(ns@, names@[k]@),
            j <= names.len(),
            forall|a: int, b: int|
                0 <= a < b < j && ns_view[a] != ns_view[b] ==> #[trigger] spec_discm(ns@, ns_view[a])
                    != #[trigger] spec_discm(ns@, ns_view[b]),
        decreases names.len() - j,
    {
        let mut i: usize = 0;
        while i < j
            invariant
                tags.len() == names.len(),
                ns_view == names@.map_values(|s: String| s@),
                forall|k: int| 0 <= k < tags.len() ==> #[trigger] tags@[k]@ == spec_discm(ns@, names@[k]@),
                j < names.len(),
                i <= j,
                forall|a: int, b: int|
                    0 <= a < b < j && ns_view[a] != ns_view[b] ==> #[trigger] spec_discm(ns@, ns_view[a])
                        != #[trigger] spec_discm(ns@, ns_view[b]),
                forall|a: int|
                    0 <= a < i && ns_view[a] != ns_view[j as int] ==> #[trigger] spec_discm(ns@, ns_view[a])
                        != spec_discm(ns@, ns_view[j as int]),
            decreases j - i,
        {
            assert(tags@[i as int]@ == spec_discm(ns@, names@[i as int]@));
            assert(tags@[j as int]@ == spec_discm(ns@, names@[j as int]@));
            if names[i] != names[j] && bytes_eq(&tags[i], &tags[j]) {
                return Some((i, j));
            }
            i += 1;
        }
        j += 1;
    }
    None
}

pub open spec fn account_names(idl: AnchorIdl) -> Seq<Seq<char>> {
    match idl.accounts {
        Some(v) => v@.map_values(|a: NamedAccount| a.name@),
        None => Seq::empty(),
    }
}

pub open spec fn instruction_names(idl: AnchorIdl) -> Seq<Seq<char>> {
    match idl.instructions {
        Some(v) => v@.map_values(|ix: NamedInstruction| ix.name@),
        None => Seq::empty(),
    }
}

/// `a` and `b` are distinct names of `names` with the same tag under `ns`.
pub open spec fn collision_pair(ns: Seq<char>, names: Seq<Seq<char>>, a: Seq<char>, b: Seq<char>) -> bool {
    a != b && names.contains(a) && names.contains(b) && spec_discm(ns, a) == spec_discm(ns, b)
}

fn account_name_list(idl: &AnchorIdl) -> (r: Vec<String>)
    ensures
        r@.map_values(|s: String| s@) == account_names(*idl),
{
    let mut r: Vec<String> = Vec::new();
    match &idl.accounts {
        Some(v) => {
            let mut i: usize = 0;
            while i < v.len()
                invariant
                    i <= v.len(),
                    r.len() == i,
                    forall|k: int| 0 <= k < i ==> #[trigger] r@[k]@ == v@[k].name@,
                decreases v.len() - i,
            {
                r.push(v[i].name.clone());
                i += 1;
            }
            assert(r@.map_values(|s: String| s@) =~= v@.map_values(|a: NamedAccount| a.name@));
        },
        None => {
            assert(r@.map_values(|s: String| s@) =~= Seq::<Seq<char>>::empty());
        },
    }
    r
}

fn instruction_name_list(idl: &AnchorIdl) -> (r: Vec<String>)
    ensures
        r@.map_values(|s: String| s@) == instruction_names(*idl),
{
    let mut r: Vec<String> = Vec::new();
    match &idl.instructions {
        Some(v) => {
            let mut i: usize = 0;
            while i < v.len()
                invariant
                    i <= v.len(),
                    r.len() == i,
                    forall|k: int| 0 <= k < i ==> #[trigger] r@[k]@ == v@[k].name@,
                decreases v.len() - i,
            {
                r.push(v[i].name.clone());
                i += 1;
            }
            assert(r@.map_values(|s: String| s@) =~= v@.map_values(|ix: NamedInstruction| ix.name@));
        },
        None => {
            assert(r@.map_values(|s: String| s@) =~= Seq::<Seq<char>>::empty());
        },
    }
    r
}

fn collision_error(ns: &str, names: &Vec<String>) -> (r: Option<IdlError>)
    ensures
        match r {
            None => !collides(ns@, names@.map_values(|s: String| s@)),
            Some(IdlError::DiscriminatorCollision(a, b)) => collision_pair(
                ns@,
                names@.map_values(|s: String| s@),
                a@,
                b@,
            ),
            Some(_) => false,
        },
{
    match find_collision(ns, names) {
        Some((i, j)) => {
            let a: String = names[i].clone();
            let b: String = names[j].clone();
            let ghost v = names@.map_values(|s: String| s@);
            assert(v[i as int] == a@ && v[j as int] == b@);
            Some(IdlError::DiscriminatorCollision(a, b))
        },
        None => None,
    }
}

impl AnchorIdl {
    /// Checks that no two distinct account names, and no two distinct
    /// instruction names, get the same discriminator.
    pub fn check_discriminators(&self) -> (r: Result<(), IdlError>)
        ensures
            match r {
                Ok(()) => !collides("account:"@, account_names(*self)) && !collides(
                    "global:"@,
                    instruction_names(*self),
                ),
                Err(IdlError::DiscriminatorCollision(a, b)) => collision_pair(
                    "account:"@,
                    account_names(*self),
                    a@,
                    b@,
                ) || collision_pair("global:"@, instruction_names(*self), a@, b@),
                Err(_) => false,
            },
    {
        let accounts = account_name_list(self);
        match collision_error("account:", &accounts) {
            Some(e) => return Err(e),
            None => {},
        }
        let ixs = instruction_name_list(self);
        match collision_error("global:", &ixs) {
            Some(e) => return Err(e),
            None => {},
        }
        Ok(())
    }
}

} // verus!
