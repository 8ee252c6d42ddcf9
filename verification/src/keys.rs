//! Classification of private-key material.
//!
//! The unverified shell reads the key file; this module decides, from the
//! file's text alone, which key family it holds, by the markers the usual
//! serialisations carry.

use vstd::prelude::*;
use vstd::string::*;

verus! {

/// Whether `n` occurs as a contiguous subsequence of `h`.
pub open spec fn contains_sub(h: Seq<u8>, n: Seq<u8>) -> bool {
    exists|i: int| 0 <= i <= h.len() - n.len() && #[trigger] h.subrange(i, i + n.len()) == n
}

/// Whether `n@` occurs in `h@` starting at `i`.
fn matches_at(h: &[u8], n: &[u8], i: usize) -> (b: bool)
    requires
        i + n@.len() <= h@.len(),
    ensures
        b == (h@.subrange(i as int, i + n@.len()) == n@),
{
    let hl = h.len();
    let m = n.len();
    let mut j: usize = 0;
    while j < m
        invariant
            hl == h@.len(),
            m == n@.len(),
            i + m <= h@.len(),
            j <= m,
            forall|k: int| 0 <= k < j ==> h@[i + k] == n@[k],
        decreases m - j,
    {
        if h[i + j] != n[j] {
            proof {
                assert(h@.subrange(i as int, i + m) != n@) by {
                    assert(h@.subrange(i as int, i + m)[j as int] == h@[i + j]);
                }
            }
            return false;
        }
        j = j + 1;
    }
    proof {
        assert(h@.subrange(i as int, i + m) =~= n@);
    }
    true
}

/// Naive substring search over bytes.
pub fn contains_bytes(h: &[u8], n: &[u8]) -> (b: bool)
    ensures
        b == contains_sub(h@, n@),
{
    let hn = h.len();
    let m = n.len();
    if m > hn {
        return false;
    }
    if m == 0 {
        proof {
            assert(h@.subrange(0, 0 + n@.len() as int) =~= n@);
        }
        return true;
    }
    let last = hn - m;
    let mut i: usize = 0;
    while i <= last
        invariant
            hn == h@.len(),
            m == n@.len(),
            m <= hn,
            last == hn - m,
            1 <= m,
            i <= last + 1,
            forall|k: int| 0 <= k < i ==> #[trigger] h@.subrange(k, k + n@.len()) != n@,
        decreases last + 1 - i,
    {
        if matches_at(h, n, i) {
            return true;
        }
        i = i + 1;
    }
    false
}

/// The key family a private-key text declares, as its label.
///
/// A modern combined serialisation is recognised by its envelope marker and
/// classified by the algorithm name inside it; otherwise the older
/// per-algorithm envelopes decide; anything else is unknown.
pub open spec fn spec_key_type(b: Seq<u8>) -> Seq<char> {
    if contains_sub(b, "BEGIN OPENSSH PRIVATE KEY".spec_bytes()) {
        if contains_sub(b, "ssh-ed25519".spec_bytes()) {
            "ed25519"@
        } else if contains_sub(b, "ecdsa".spec_bytes()) {
            "ecdsa"@
        } else if contains_sub(b, "ssh-rsa".spec_bytes()) {
            "rsa"@
        } else {
            "unknown"@
        }
    } else if contains_sub(b, "BEGIN RSA PRIVATE KEY".spec_bytes()) {
        "rsa"@
    } else if contains_sub(b, "BEGIN EC PRIVATE KEY".spec_bytes()) {
        "ecdsa"@
    } else if contains_sub(b, "BEGIN DSA PRIVATE KEY".spec_bytes()) {
        "dsa"@
    } else {
        "unknown"@
    }
}

/// Classify the contents of a private-key file.
pub fn get_key_type(contents: &str) -> (r: String)
    ensures
        r@ == spec_key_type(contents.spec_bytes()),
{
    let b = contents.as_bytes();
    if contains_bytes(b, "BEGIN OPENSSH PRIVATE KEY".as_bytes()) {
        if contains_bytes(b, "ssh-ed25519".as_bytes()) {
            "ed25519".to_owned()
        } else if contains_bytes(b, "ecdsa".as_bytes()) {
            "ecdsa".to_owned()
        } else if contains_bytes(b, "ssh-rsa".as_bytes()) {
            "rsa".to_owned()
        } else {
            "unknown".to_owned()
        }
    } else if contains_bytes(b, "BEGIN RSA PRIVATE KEY".as_bytes()) {
        "rsa".to_owned()
    } else if contains_bytes(b, "BEGIN EC PRIVATE KEY".as_bytes()) {
        "ecdsa".to_owned()
    } else if contains_bytes(b, "BEGIN DSA PRIVATE KEY".as_bytes()) {
        "dsa".to_owned()
    } else {
        "unknown".to_owned()
    }
}

/// The conventional path of the public half beside a private key file.
pub fn public_key_path(private_key_path: &str) -> (r: String)
    ensures
        r@ == private_key_path@ + ".pub"@,
{
    let mut p = private_key_path.to_owned();
    p.append(".pub");
    p
}

} // verus!
