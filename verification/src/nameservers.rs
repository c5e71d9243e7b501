//! Nameserver discovery: grouping configured nameservers by network
//! address.
//!
//! The system resolver configuration may list several nameserver entries
//! that share one network address (for example one per protocol). Querying
//! each distinct address individually surfaces per-server discrepancies
//! that a single merged resolver would hide, so the entries are grouped by
//! address and one named query target is built per distinct address.
//!
//! An entry is carried here as its address string; a group holds the
//! indices of the entries that share its address, so the caller can map a
//! group back to the configuration entries it was built from.

use vstd::prelude::*;

verus! {

/// One named query target: a distinct nameserver address together with
/// the indices (into the discovered entry list) of every entry sharing
/// that address, in increasing order.
pub struct NameserverGroup {
    /// The network address shared by the member entries.
    pub address: String,
    /// Indices of the member entries, strictly increasing.
    pub members: Vec<usize>,
}

/// Entry `j` belongs to some group: one group lists `j` among its members.
pub open spec fn entry_covered(groups: Seq<NameserverGroup>, j: int) -> bool {
    exists|g: int, k: int|
        0 <= g < groups.len() && 0 <= k < groups[g].members@.len() && #[trigger] groups[g].members@[k]
            == j
}

/// Well-formedness of a grouping of `n` entries with the given addresses:
/// group addresses are pairwise distinct, every group is non-empty, each
/// group's members are exactly the indices of the entries carrying its
/// address in increasing order, and every entry belongs to some group.
pub open spec fn groups_wf(addresses: Seq<Seq<char>>, groups: Seq<NameserverGroup>) -> bool {
    &&& forall|g1: int, g2: int|
        0 <= g1 < g2 < groups.len() ==> groups[g1].address@ != groups[g2].address@
    &&& forall|g: int| 0 <= g < groups.len() ==> groups[g].members@.len() > 0
    &&& forall|g: int, k: int|
        0 <= g < groups.len() && 0 <= k < groups[g].members@.len() ==> {
            &&& groups[g].members@[k] < addresses.len()
            &&& addresses[groups[g].members@[k] as int] == groups[g].address@
        }
    &&& forall|g: int, k1: int, k2: int|
        0 <= g < groups.len() && 0 <= k1 < k2 < groups[g].members@.len()
            ==> groups[g].members@[k1] < groups[g].members@[k2]
    &&& forall|i: int| 0 <= i < addresses.len() ==> #[trigger] entry_covered(groups, i)
}

/// Groups nameserver entries, given by address, into one
/// [`NameserverGroup`] per distinct address. Entries sharing an address
/// are coalesced into a single group; a group's members are the entry
/// indices carrying its address, in increasing order.
pub fn group_nameservers(addresses: &Vec<String>) -> (groups: Vec<NameserverGroup>)
    ensures
        groups_wf(addresses.deep_view(), groups@),
        addresses@.len() > 0 ==> groups@.len() > 0,
        groups@.len() <= addresses@.len(),
        (forall|i: int, j: int|
            0 <= i < j < addresses.deep_view().len() ==> addresses.deep_view()[i]
                != addresses.deep_view()[j]) ==> groups@.len() == addresses@.len(),
{
    let ghost addrs = addresses.deep_view();
    let mut groups: Vec<NameserverGroup> = Vec::new();
    let mut i: usize = 0;
    while i < addresses.len()
        invariant
            addrs == addresses.deep_view(),
            addrs.len() == addresses@.len(),
            0 <= i <= addrs.len(),
            groups@.len() <= i,
            i > 0 ==> groups@.len() > 0,
            (forall|x: int, y: int| 0 <= x < y < addrs.len() ==> addrs[x] != addrs[y])
                ==> groups@.len() == i,
            forall|g1: int, g2: int|
                0 <= g1 < g2 < groups@.len() ==> groups@[g1].address@ != groups@[g2].address@,
            forall|g: int| 0 <= g < groups@.len() ==> groups@[g].members@.len() > 0,
            forall|g: int, k: int|
                0 <= g < groups@.len() && 0 <= k < groups@[g].members@.len() ==> {
                    &&& groups@[g].members@[k] < i
                    &&& addrs[groups@[g].members@[k] as int] == groups@[g].address@
                },
            forall|g: int, k1: int, k2: int|
                0 <= g < groups@.len() && 0 <= k1 < k2 < groups@[g].members@.len()
                    ==> groups@[g].members@[k1] < groups@[g].members@[k2],
            forall|j: int| 0 <= j < i ==> #[trigger] entry_covered(groups@, j),
        decreases addrs.len() - i,
    {
        assert(addrs[i as int] == addresses@[i as int]@);
        let mut found: Option<usize> = None;
        let mut g: usize = 0;
        while g < groups.len()
            invariant
                0 <= g <= groups@.len(),
                i < addresses@.len(),
                addrs == addresses.deep_view(),
                addrs.len() == addresses@.len(),
                match found {
                    Some(fg) => fg < groups@.len() && groups@[fg as int].address@ == addrs[i as int],
                    None => forall|h: int| 0 <= h < g ==> groups@[h].address@ != addrs[i as int],
                },
            decreases groups@.len() - g,
        {
            if found.is_none() && groups[g].address == addresses[i] {
                found = Some(g);
            }
            g = g + 1;
        }
        let ghost pre = groups@;
        match found {
            Some(fg) => {
                proof {
                    if forall|x: int, y: int| 0 <= x < y < addrs.len() ==> addrs[x] != addrs[y] {
                        let m = pre[fg as int].members@[0];
                        assert(addrs[m as int] == pre[fg as int].address@);
                        assert(m < i);
                        assert(addrs[m as int] != addrs[i as int]);
                        assert(false);
                    }
                }
                let mut grp = groups.remove(fg);
                let ghost old_members = grp.members@;
                grp.members.push(i);
                groups.insert(fg, grp);
                proof {
                    assert forall|h: int| 0 <= h < pre.len() && h != fg implies groups@[h]
                        == pre[h] by {
                        if h < fg {
                            assert(groups@[h] == pre.remove(fg as int)[h]);
                        } else {
                            assert(groups@[h] == pre.remove(fg as int)[h - 1]);
                        }
                    }
                    assert(groups@[fg as int].members@ == old_members.push(i as usize));
                    assert(groups@[fg as int].address@ == pre[fg as int].address@);
                }
            },
            None => {
                let mut members: Vec<usize> = Vec::new();
                members.push(i);
                groups.push(NameserverGroup { address: addresses[i].clone(), members });
                proof {
                    assert(groups@.last().members@[0] == i);
                    assert(forall|h: int| 0 <= h < pre.len() ==> groups@[h] == pre[h]);
                }
            },
        }
        proof {
            let gs = groups@;
            assert forall|j: int| 0 <= j < i + 1 implies #[trigger] entry_covered(gs, j) by {
                if j < i {
                    assert(entry_covered(pre, j));
                    let (g, k): (int, int) = choose|g: int, k: int|
                        0 <= g < pre.len() && 0 <= k < pre[g].members@.len()
                            && #[trigger] pre[g].members@[k] == j;
                    assert(gs[g].members@[k] == j);
                } else {
                    match found {
                        Some(fg) => {
                            let g = fg as int;
                            let k = gs[g].members@.len() - 1;
                            assert(gs[g].members@[k] == j);
                        },
                        None => {
                            let g = gs.len() - 1;
                            assert(gs[g].members@[0] == j);
                        },
                    }
                }
            }
        }
        i = i + 1;
    }
    groups
}

/// The label of one discovered query target:
/// `resolv.conf server[<address>]`.
pub open spec fn exhaustive_label_spec(address: Seq<char>) -> Seq<char> {
    "resolv.conf server["@ + address + "]"@
}

/// Builds the label naming one discovered nameserver address.
pub fn exhaustive_label(address: &str) -> (r: String)
    ensures
        r@ == exhaustive_label_spec(address@),
{
    let mut r = "resolv.conf server[".to_owned();
    r.append(address);
    r.append("]");
    r
}

/// Labels built from distinct addresses are themselves distinct.
pub proof fn lemma_exhaustive_label_injective(a: Seq<char>, b: Seq<char>)
    requires
        exhaustive_label_spec(a) == exhaustive_label_spec(b),
    ensures
        a == b,
{
    let p = "resolv.conf server["@;
    let s = "]"@;
    assert(a =~= (p + a + s).subrange(p.len() as int, p.len() as int + a.len() as int));
    assert((p + a + s).len() == (p + b + s).len());
    assert(a.len() == b.len());
    assert(b =~= (p + b + s).subrange(p.len() as int, p.len() as int + b.len() as int));
}

} // verus!
