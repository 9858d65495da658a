//! The folder bookkeeping of a vault import.
use vstd::prelude::*;

verus! {

/// The folder that the relationships `rels` give to cipher `i`: the last one
/// that names that cipher and an existing folder wins.
pub open spec fn assigned(rels: Seq<(usize, usize)>, n_folders: nat, i: int) -> Option<usize>
    decreases rels.len(),
{
    if rels.len() == 0 {
        None
    } else if rels.last().0 == i && rels.last().1 < n_folders {
        Some(rels.last().1)
    } else {
        assigned(rels.drop_last(), n_folders, i)
    }
}

/// For each of `n_ciphers` imported ciphers, the index of the folder that the
/// import's (cipher, folder) relationships put it in; `None` leaves the
/// cipher's own folder. Relationships that name a missing cipher or folder are
/// ignored.
pub fn folder_assignments(n_ciphers: usize, n_folders: usize, rels: &Vec<(usize, usize)>) -> (r: Vec<Option<usize>>)
    ensures
        r@.len() == n_ciphers,
        forall|i: int| 0 <= i < n_ciphers ==> #[trigger] r@[i] == assigned(rels@, n_folders as nat, i),
{
    let mut r: Vec<Option<usize>> = Vec::new();
    let mut i: usize = 0;
    while i < n_ciphers
        invariant
            i <= n_ciphers,
            r@.len() == i,
            forall|m: int| 0 <= m < i ==> #[trigger] r@[m] == None::<usize>,
        decreases n_ciphers - i,
    {
        r.push(None);
        i += 1;
    }
    assert forall|m: int| 0 <= m < n_ciphers implies #[trigger] r@[m] == assigned(rels@.subrange(0, 0), n_folders as nat, m) by {
    }
    let mut j: usize = 0;
    while j < rels.len()
        invariant
            j <= rels@.len(),
            r@.len() == n_ciphers,
            forall|m: int| 0 <= m < n_ciphers ==> #[trigger] r@[m] == assigned(rels@.subrange(0, j as int), n_folders as nat, m),
        decreases rels@.len() - j,
    {
        let (key, value) = rels[j];
        if key < n_ciphers && value < n_folders {
            r.set(key, Some(value));
        }
        assert(rels@.subrange(0, j + 1).drop_last() =~= rels@.subrange(0, j as int));
        assert(rels@.subrange(0, j + 1).last() == (key, value));
        j += 1;
    }
    assert(rels@.subrange(0, rels@.len() as int) =~= rels@);
    r
}

/// Whether every imported cipher was encrypted for the account `sub`.
pub fn all_encrypted_for(owners: &Vec<String>, sub: &str) -> (r: bool)
    ensures
        r == forall|i: int| 0 <= i < owners@.len() ==> #[trigger] owners@[i]@ == sub@,
{
    let target = String::from_str(sub);
    let mut i: usize = 0;
    while i < owners.len()
        invariant
            i <= owners@.len(),
            target@ == sub@,
            forall|m: int| 0 <= m < i ==> #[trigger] owners@[m]@ == sub@,
        decreases owners@.len() - i,
    {
        if owners[i] != target {
            return false;
        }
        i += 1;
    }
    true
}

} // verus!
