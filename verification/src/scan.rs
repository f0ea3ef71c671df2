//! Which files in a key directory count as private keys.
//!
//! Walking the directory is the surrounding application's step; it hands the
//! file names in here. A name counts when it is not a public half (no `.pub`
//! extension) and not one of the well-known non-key files that live in a key
//! directory.

use vstd::multiset::Multiset;
use vstd::prelude::*;

use crate::text::{ends_with, lemma_lex_total, lemma_lex_trans, lex_le, starts_with, str_ends_with, str_eq, str_lex_le, str_starts_with, views_of};

verus! {

/// The well-known non-key files: the fixed names, and agent sockets.
pub open spec fn spec_is_non_key_file(name: Seq<char>) -> bool {
    ||| name == "authorized_keys"@
    ||| name == "authorized_keys2"@
    ||| name == "known_hosts"@
    ||| name == "known_hosts.old"@
    ||| name == "config"@
    ||| starts_with(name, "agent."@)
}

/// A file name that counts as a private key candidate.
pub open spec fn spec_is_key_name(name: Seq<char>) -> bool {
    !ends_with(name, ".pub"@) && !spec_is_non_key_file(name)
}

/// The key candidates among `names`, in their given order.
pub open spec fn spec_key_names(names: Seq<Seq<char>>) -> Seq<Seq<char>>
    decreases names.len(),
{
    if names.len() == 0 {
        Seq::empty()
    } else {
        let head: Seq<Seq<char>> = if spec_is_key_name(names[0]) {
            seq![names[0]]
        } else {
            Seq::empty()
        };
        head + spec_key_names(names.drop_first())
    }
}

/// One more name extends the candidates of the ones before it.
proof fn lemma_key_names_push(names: Seq<Seq<char>>, n: Seq<char>)
    ensures
        spec_key_names(names.push(n)) == spec_key_names(names) + (if spec_is_key_name(n) {
            seq![n]
        } else {
            Seq::<Seq<char>>::empty()
        }),
    decreases names.len(),
{
    let tail: Seq<Seq<char>> = if spec_is_key_name(n) {
        seq![n]
    } else {
        Seq::empty()
    };
    if names.len() == 0 {
        assert(names.push(n)[0] == n);
        assert(names.push(n).drop_first() =~= names);
        assert(spec_key_names(names.push(n)) =~= spec_key_names(names) + tail);
    } else {
        assert(names.push(n)[0] == names[0]);
        assert(names.push(n).drop_first() =~= names.drop_first().push(n));
        lemma_key_names_push(names.drop_first(), n);
        assert(spec_key_names(names.push(n)) =~= spec_key_names(names) + tail);
    }
}

/// Finds the keys in one key directory.
pub struct KeyScanner {
    pub ssh_dir: String,
}

impl KeyScanner {
    /// A scanner for the key directory at `ssh_dir`.
    pub fn new(ssh_dir: &str) -> (r: Self)
        ensures
            r.ssh_dir@ == ssh_dir@,
    {
        KeyScanner { ssh_dir: ssh_dir.to_owned() }
    }

    /// One of the well-known files in a key directory that is not a key.
    pub fn is_non_key_file(filename: &str) -> (r: bool)
        ensures
            r == spec_is_non_key_file(filename@),
    {
        str_eq(filename, "authorized_keys") || str_eq(filename, "authorized_keys2") || str_eq(
            filename,
            "known_hosts",
        ) || str_eq(filename, "known_hosts.old") || str_eq(filename, "config") || str_starts_with(
            filename,
            "agent.",
        )
    }

    /// The key candidates among the directory's file names, in their given
    /// order: public halves and the well-known non-key files are dropped.
    pub fn select_key_names(&self, names: &Vec<String>) -> (r: Vec<String>)
        ensures
            views_of(r@) == spec_key_names(views_of(names@)),
    {
        let mut out: Vec<String> = Vec::new();
        let mut i: usize = 0;
        proof {
            assert(views_of(out@) =~= spec_key_names(views_of(names@).take(0)));
        }
        while i < names.len()
            invariant
                i <= names@.len(),
                views_of(out@) == spec_key_names(views_of(names@).take(i as int)),
            decreases names@.len() - i,
        {
            let name = &names[i];
            let ghost before = views_of(out@);
            if !str_ends_with(name.as_str(), ".pub") && !Self::is_non_key_file(name.as_str()) {
                out.push(name.clone());
                proof {
                    assert(views_of(out@) =~= before + seq![name@]);
                }
            }
            proof {
                let nv = views_of(names@);
                assert(nv.take(i + 1 as int) =~= nv.take(i as int).push(nv[i as int]));
                lemma_key_names_push(nv.take(i as int), nv[i as int]);
                if !spec_is_key_name(nv[i as int]) {
                    assert(views_of(out@) =~= before + Seq::<Seq<char>>::empty());
                }
            }
            i += 1;
        }
        proof {
            assert(views_of(names@).take(names@.len() as int) =~= views_of(names@));
        }
        out
    }
}


/// The names stand in lexicographic order.
pub open spec fn names_sorted(names: Seq<String>) -> bool {
    forall|i: int, j: int|
        0 <= i < j < names.len() ==> lex_le(#[trigger] names[i]@, #[trigger] names[j]@)
}

/// The position of a least name among `rest`.
fn min_name_index(rest: &Vec<String>) -> (r: usize)
    requires
        rest@.len() > 0,
    ensures
        r < rest@.len(),
        forall|j: int| 0 <= j < rest@.len() ==> lex_le(rest@[r as int]@, #[trigger] rest@[j]@),
{
    let mut m: usize = 0;
    let mut k: usize = 1;
    proof {
        lemma_lex_total(rest@[0]@, rest@[0]@);
    }
    while k < rest.len()
        invariant
            m < k || (m == 0 && k <= 1),
            m < rest@.len(),
            k <= rest@.len(),
            forall|j: int| 0 <= j < k ==> lex_le(rest@[m as int]@, #[trigger] rest@[j]@),
        decreases rest@.len() - k,
    {
        if str_lex_le(rest[k].as_str(), rest[m].as_str()) {
            proof {
                assert forall|j: int| 0 <= j < k + 1 implies lex_le(
                    rest@[k as int]@,
                    #[trigger] rest@[j]@,
                ) by {
                    if j < k {
                        lemma_lex_trans(rest@[k as int]@, rest@[m as int]@, rest@[j]@);
                    } else {
                        lemma_lex_total(rest@[k as int]@, rest@[k as int]@);
                    }
                }
            }
            m = k;
        } else {
            proof {
                lemma_lex_total(rest@[m as int]@, rest@[k as int]@);
            }
        }
        k += 1;
    }
    m
}

/// Sort names lexicographically: the result holds exactly the given names,
/// in order.
pub fn sort_names(names: &Vec<String>) -> (r: Vec<String>)
    ensures
        names_sorted(r@),
        r@.to_multiset() == names@.to_multiset(),
{
    broadcast use vstd::seq_lib::group_to_multiset_ensures;

    let mut rest: Vec<String> = Vec::new();
    let mut i: usize = 0;
    while i < names.len()
        invariant
            i <= names@.len(),
            rest@.len() == i,
            forall|k: int| 0 <= k < i ==> rest@[k] == names@[k],
        decreases names@.len() - i,
    {
        rest.push(names[i].clone());
        i += 1;
    }
    proof {
        assert(rest@ =~= names@);
    }
    let mut out: Vec<String> = Vec::new();
    while rest.len() > 0
        invariant
            names_sorted(out@),
            out@.to_multiset().add(rest@.to_multiset()) == names@.to_multiset(),
            forall|a: int, b: int|
                0 <= a < out@.len() && 0 <= b < rest@.len() ==> lex_le(
                    #[trigger] out@[a]@,
                    #[trigger] rest@[b]@,
                ),
        decreases rest@.len(),
    {
        let m = min_name_index(&rest);
        let ghost rest_before = rest@;
        let ghost out_before = out@;
        let v = rest.remove(m);
        out.push(v);
        proof {
            vstd::seq_lib::to_multiset_remove(rest_before, m as int);
            vstd::seq_lib::to_multiset_build(out_before, rest_before[m as int]);
            assert(rest@ == rest_before.remove(m as int));
            assert(out@ == out_before.push(rest_before[m as int]));
            assert(rest@.to_multiset() =~= rest_before.to_multiset().remove(
                rest_before[m as int],
            ));
            assert(out@.to_multiset() =~= out_before.to_multiset().insert(rest_before[m as int]));
            assert(out@.to_multiset().add(rest@.to_multiset()) =~= names@.to_multiset()) by {
                rest_before.to_multiset_ensures();
                assert(rest_before.contains(rest_before[m as int]));
                assert(rest_before.to_multiset().count(rest_before[m as int]) > 0);
            }
            assert forall|a: int, b: int|
                0 <= a < out@.len() && 0 <= b < rest@.len() implies lex_le(
                #[trigger] out@[a]@,
                #[trigger] rest@[b]@,
            ) by {
                let prev = if b < m { rest_before[b] } else { rest_before[b + 1] };
                assert(rest@[b] == prev);
                if a < out_before.len() {
                    assert(out@[a] == out_before[a]);
                } else {
                    assert(out@[a] == rest_before[m as int]);
                }
            }
            assert(names_sorted(out@)) by {
                assert forall|a: int, b: int|
                    0 <= a < b < out@.len() implies lex_le(
                    #[trigger] out@[a]@,
                    #[trigger] out@[b]@,
                ) by {
                    if b < out@.len() - 1 {
                        assert(out@[a] == out_before[a] && out@[b] == out_before[b]);
                    } else {
                        assert(out@[b] == rest_before[m as int]);
                        assert(out@[a] == out_before[a]);
                        assert(lex_le(out_before[a]@, rest_before[m as int]@));
                    }
                }
            }
        }
    }
    proof {
        assert(rest@.to_multiset() =~= Multiset::<String>::empty());
        assert(out@.to_multiset() =~= names@.to_multiset());
    }
    out
}

} // verus!
