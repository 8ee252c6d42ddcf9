//! Directory-listing entries and their presentation order.
//!
//! The unverified shell walks a remote directory over the connected
//! session's file-transfer subsystem and converts each entry to a
//! [`FileEntry`]; this module owns the entry type and the ordering rule:
//! directories first, then case-insensitive by name.

use vstd::prelude::*;
use vstd::multiset::Multiset;

use vstd::seq_lib::group_seq_lib_default;

verus! {

/// One entry of a remote directory listing.
#[derive(Debug, Clone)]
pub struct FileEntry {
    /// Bare file name.
    pub name: String,
    /// Full remote path.
    pub path: String,
    /// Whether the entry is a directory.
    pub is_dir: bool,
    /// Size in bytes, zero when unknown.
    pub size: u64,
    /// Modification time in seconds since the epoch, zero when unknown.
    pub modified: i64,
    /// Permission bits, zero when unknown.
    pub permissions: u32,
}

/// The case-folded sort key of a file name: the bytes of its lowercase
/// form.  Lowercasing is delegated to the standard library; the key is a
/// function of the name's characters alone.
pub uninterp spec fn lower_key(s: Seq<char>) -> Seq<u8>;

/// Relies on str::to_lowercase for case folding: the result depends on the
/// name's characters alone, so equal names always map to equal keys.
#[verifier::external_body]
fn lowercase_key(s: &String) -> (r: Vec<u8>)
    ensures
        r@ == lower_key(s@),
{
    s.to_lowercase().into_bytes()
}

/// Byte-wise lexicographic order: `a` at or before `b`.
pub open spec fn bytes_le(a: Seq<u8>, b: Seq<u8>) -> bool
    decreases a.len(),
{
    if a.len() == 0 {
        true
    } else if b.len() == 0 {
        false
    } else if a.first() < b.first() {
        true
    } else if a.first() > b.first() {
        false
    } else {
        bytes_le(a.drop_first(), b.drop_first())
    }
}

/// The lexicographic order is total: two byte strings always compare in at
/// least one direction.
pub proof fn lemma_bytes_le_total(a: Seq<u8>, b: Seq<u8>)
    ensures
        bytes_le(a, b) || bytes_le(b, a),
    decreases a.len(),
{
    if a.len() == 0 || b.len() == 0 {
    } else if a.first() == b.first() {
        lemma_bytes_le_total(a.drop_first(), b.drop_first());
    }
}

/// The lexicographic order is transitive.
proof fn lemma_bytes_le_trans(a: Seq<u8>, b: Seq<u8>, c: Seq<u8>)
    requires
        bytes_le(a, b),
        bytes_le(b, c),
    ensures
        bytes_le(a, c),
    decreases a.len(),
{
    if a.len() == 0 || c.len() == 0 {
    } else if b.len() > 0 && a.first() == b.first() && b.first() == c.first() {
        lemma_bytes_le_trans(a.drop_first(), b.drop_first(), c.drop_first());
    }
}

/// Decide `bytes_le(a@, b@)` executably.
fn bytes_le_exec(a: &Vec<u8>, b: &Vec<u8>) -> (r: bool)
    ensures
        r == bytes_le(a@, b@),
{
    let an = a.len();
    let bn = b.len();
    proof {
        assert(a@.skip(0) =~= a@);
        assert(b@.skip(0) =~= b@);
    }
    let mut i: usize = 0;
    while i < an && i < bn
        invariant
            an == a@.len(),
            bn == b@.len(),
            i <= an,
            i <= bn,
            bytes_le(a@, b@) == bytes_le(a@.skip(i as int), b@.skip(i as int)),
            bytes_le(b@, a@) == bytes_le(b@.skip(i as int), a@.skip(i as int)),
        decreases an - i,
    {
        let x = a[i];
        let y = b[i];
        proof {
            assert(a@.skip(i as int).first() == a@[i as int]);
            assert(b@.skip(i as int).first() == b@[i as int]);
            assert(a@.skip(i as int).drop_first() =~= a@.skip(i + 1));
            assert(b@.skip(i as int).drop_first() =~= b@.skip(i + 1));
        }
        if x < y {
            return true;
        }
        if x > y {
            return false;
        }
        i = i + 1;
    }
    proof {
        if i == an {
            assert(a@.skip(i as int).len() == 0);
        } else {
            assert(b@.skip(i as int).len() == 0);
            assert(a@.skip(i as int).len() > 0);
        }
    }
    i == an
}

/// Presentation order of a listing: directories before files, and within
/// each group case-insensitive by name.
pub open spec fn entry_le(a: FileEntry, b: FileEntry) -> bool {
    if a.is_dir != b.is_dir {
        a.is_dir
    } else {
        bytes_le(lower_key(a.name@), lower_key(b.name@))
    }
}

/// The presentation order is total.
pub proof fn lemma_entry_le_total(a: FileEntry, b: FileEntry)
    ensures
        entry_le(a, b) || entry_le(b, a),
{
    if a.is_dir == b.is_dir {
        lemma_bytes_le_total(lower_key(a.name@), lower_key(b.name@));
    }
}

/// The presentation order is transitive.
proof fn lemma_entry_le_trans(a: FileEntry, b: FileEntry, c: FileEntry)
    requires
        entry_le(a, b),
        entry_le(b, c),
    ensures
        entry_le(a, c),
{
    if a.is_dir == b.is_dir && b.is_dir == c.is_dir {
        lemma_bytes_le_trans(lower_key(a.name@), lower_key(b.name@), lower_key(c.name@));
    }
}

/// In an adjacently ordered listing, every earlier entry is at or before
/// every later one.
proof fn lemma_adjacent_implies_pairwise(s: Seq<FileEntry>, i: int, j: int)
    requires
        forall|k: int| 0 <= k && k + 1 < s.len() ==> entry_le(#[trigger] s[k], s[k + 1]),
        0 <= i < j < s.len(),
    ensures
        entry_le(s[i], s[j]),
    decreases j - i,
{
    if j == i + 1 {
    } else {
        lemma_adjacent_implies_pairwise(s, i, j - 1);
        lemma_entry_le_trans(s[i], s[j - 1], s[j]);
    }
}

/// Decide `entry_le(a, b)` executably.
fn entry_le_exec(a: &FileEntry, b: &FileEntry) -> (r: bool)
    ensures
        r == entry_le(*a, *b),
{
    if a.is_dir != b.is_dir {
        a.is_dir
    } else {
        let ka = lowercase_key(&a.name);
        let kb = lowercase_key(&b.name);
        bytes_le_exec(&ka, &kb)
    }
}

/// Insert one entry into an already ordered vector, keeping it ordered.
#[verifier::rlimit(50)]
fn insert_sorted(v: &mut Vec<FileEntry>, e: FileEntry)
    requires
        forall|i: int| 0 <= i && i + 1 < old(v)@.len() ==> entry_le(#[trigger] old(v)@[i], old(v)@[i + 1]),
    ensures
        final(v)@.to_multiset() == old(v)@.to_multiset().insert(e),
        forall|i: int| 0 <= i && i + 1 < final(v)@.len() ==> entry_le(#[trigger] final(v)@[i], final(v)@[i + 1]),
{
    let n = v.len();
    let mut p: usize = 0;
    while p < n && entry_le_exec(&v[p], &e)
        invariant
            n == v@.len(),
            p <= n,
            forall|i: int| 0 <= i < p ==> entry_le(#[trigger] v@[i], e),
            forall|i: int| 0 <= i && i + 1 < v@.len() ==> entry_le(#[trigger] v@[i], v@[i + 1]),
        decreases n - p,
    {
        p = p + 1;
    }
    proof {
        if p < n {
            lemma_entry_le_total(v@[p as int], e);
        }
    }
    let ghost oldv = v@;
    v.insert(p, e);
    proof {
        broadcast use vstd::seq_lib::group_to_multiset_ensures;

        assert(v@ == oldv.insert(p as int, e));
        oldv.insert_ensures(p as int, e);
        assert(v@.len() == oldv.len() + 1);
        assert(forall|j: int| 0 <= j < p ==> #[trigger] v@[j] == oldv[j]);
        assert(v@[p as int] == e);
        assert(forall|j: int| p <= j < oldv.len() ==> #[trigger] oldv.insert(p as int, e)[j + 1] == oldv[j]);
        assert(forall|j: int| p < j < v@.len() ==> #[trigger] v@[j] == oldv[j - 1]);
        assert forall|i: int| 0 <= i && i + 1 < v@.len() implies entry_le(#[trigger] v@[i], v@[i + 1]) by {
            if i + 1 < p {
                assert(v@[i] == oldv[i]);
                assert(v@[i + 1] == oldv[i + 1]);
                assert(entry_le(oldv[i], oldv[i + 1]));
            } else if i + 1 == p {
                assert(v@[i] == oldv[i]);
                assert(v@[i + 1] == e);
                assert(entry_le(oldv[i], e));
            } else if i == p {
                assert(v@[i] == e && v@[i + 1] == oldv[i]);
                assert(entry_le(e, oldv[p as int]));
            } else {
                assert(v@[i] == oldv[i - 1] && v@[i + 1] == oldv[i]);
            }
        }
    }
}

/// Order a directory listing for presentation: the result holds exactly the
/// given entries, rearranged so that directories come first and each group
/// is case-insensitively ordered by name.
pub fn sort_entries(entries: Vec<FileEntry>) -> (r: Vec<FileEntry>)
    ensures
        r@.to_multiset() == entries@.to_multiset(),
        forall|i: int, j: int| 0 <= i < j < r@.len() ==> entry_le(#[trigger] r@[i], #[trigger] r@[j]),
{
    let mut result: Vec<FileEntry> = Vec::new();
    let mut rest = entries;
    let ghost all = rest@;
    proof {
        broadcast use {vstd::seq_lib::group_to_multiset_ensures, vstd::multiset::group_multiset_axioms};

        assert(result@ =~= Seq::<FileEntry>::empty());
        assert(forall|x: FileEntry| !result@.contains(x));
        assert(forall|x: FileEntry| result@.to_multiset().count(x) == 0);
        assert(result@.to_multiset().add(rest@.to_multiset()) =~= all.to_multiset());
    }
    while rest.len() > 0
        invariant
            result@.to_multiset().add(rest@.to_multiset()) == all.to_multiset(),
            forall|i: int| 0 <= i && i + 1 < result@.len() ==> entry_le(
                #[trigger] result@[i],
                result@[i + 1],
            ),
        decreases rest@.len(),
    {
        let ghost old_rest = rest@;
        let ghost old_result = result@;
        let e = rest.remove(0);
        proof {
            broadcast use {vstd::seq_lib::group_to_multiset_ensures, vstd::multiset::group_multiset_axioms};

            old_rest.to_multiset_ensures();
            assert(old_rest.contains(e)) by {
                assert(old_rest[0] == e);
            }
            assert(rest@.to_multiset() =~= old_rest.to_multiset().remove(e));
        }
        insert_sorted(&mut result, e);
        proof {
            assert(result@.to_multiset() == old_result.to_multiset().insert(e));
            assert(rest@.to_multiset() == old_rest.to_multiset().remove(e));
            assert(old_rest.to_multiset().count(e) >= 1);
            assert forall|x: FileEntry| #[trigger] result@.to_multiset().add(
                rest@.to_multiset(),
            ).count(x) == all.to_multiset().count(x) by {
                assert(result@.to_multiset().count(x) == old_result.to_multiset().insert(e).count(
                    x,
                ));
                assert(rest@.to_multiset().count(x) == old_rest.to_multiset().remove(e).count(x));
                assert(old_result.to_multiset().add(old_rest.to_multiset()).count(x)
                    == all.to_multiset().count(x));
            }
            assert(result@.to_multiset().add(rest@.to_multiset()) =~= all.to_multiset());
        }
    }
    proof {
        broadcast use {vstd::seq_lib::group_to_multiset_ensures, vstd::multiset::group_multiset_axioms};

        assert forall|i: int, j: int| 0 <= i < j < result@.len() implies entry_le(
            #[trigger] result@[i],
            #[trigger] result@[j],
        ) by {
            lemma_adjacent_implies_pairwise(result@, i, j);
        }
        assert(rest@ =~= Seq::<FileEntry>::empty());
        assert(rest@.to_multiset() =~= Multiset::<FileEntry>::empty());
        assert(result@.to_multiset() =~= all.to_multiset());
    }
    result
}

} // verus!
