//! Summary statistics over parsed packets: totals, protocol counts, and
//! destination-address frequencies.

use vstd::prelude::*;
use vstd::multiset::Multiset;

use crate::pcap::{Ipv4Address, Protocol};

verus! {

/// What the statistics need from one packet.
#[derive(Debug, Copy, Clone, PartialEq, Eq, Structural)]
pub struct PacketInfo {
    /// The number of transport-level payload bytes.
    pub transport_bytes: usize,
    /// The transport protocol.
    pub protocol: Protocol,
    /// The destination address.
    pub dest: Ipv4Address,
}

/// The number of UDP packets in a list.
pub open spec fn count_udp(s: Seq<PacketInfo>) -> int
    decreases s,
{
    if s.len() == 0 {
        0
    } else {
        count_udp(s.drop_last()) + (if s.last().protocol == Protocol::UDP {
            1int
        } else {
            0int
        })
    }
}

/// The total transport-level bytes of a list of packets.
pub open spec fn total_bytes(s: Seq<PacketInfo>) -> int
    decreases s,
{
    if s.len() == 0 {
        0
    } else {
        total_bytes(s.drop_last()) + s.last().transport_bytes
    }
}

/// How many packets of a list go to the given destination.
pub open spec fn count_dest(s: Seq<PacketInfo>, d: Ipv4Address) -> int
    decreases s,
{
    if s.len() == 0 {
        0
    } else {
        count_dest(s.drop_last(), d) + (if s.last().dest == d {
            1int
        } else {
            0int
        })
    }
}

/// Every count is at least zero, and at most the number of packets; the
/// byte total is at least zero.
pub proof fn lemma_counts_bounds(s: Seq<PacketInfo>, d: Ipv4Address)
    ensures
        0 <= count_udp(s) <= s.len(),
        0 <= count_dest(s, d) <= s.len(),
        0 <= total_bytes(s),
    decreases s,
{
    if s.len() > 0 {
        lemma_counts_bounds(s.drop_last(), d);
    }
}

/// A prefix never holds more bytes than the whole list.
pub proof fn lemma_total_bytes_prefix(s: Seq<PacketInfo>, k: int)
    requires
        0 <= k <= s.len(),
    ensures
        total_bytes(s.take(k)) <= total_bytes(s),
    decreases s.len() - k,
{
    if k < s.len() {
        lemma_total_bytes_prefix(s, k + 1);
        assert(s.take(k + 1).drop_last() =~= s.take(k));
        assert(s.take(k + 1).last() == s[k]);
    } else {
        assert(s.take(k) =~= s);
    }
}

/// No two entries of a count list carry the same destination.
pub open spec fn unique_dests(s: Seq<(Ipv4Address, usize)>) -> bool {
    forall|i: int, j: int| 0 <= i < j < s.len() ==> (#[trigger] s[i]).0 != (#[trigger] s[j]).0
}

/// The capture summary: how many packets, how many of them UDP, the total
/// transport bytes, and each destination with its occurrence count.
#[derive(Debug)]
pub struct CaptureStats {
    /// The number of packets.
    pub packets: usize,
    /// The number of UDP packets.
    pub udp: usize,
    /// The total transport-level bytes.
    pub total_transport_bytes: u64,
    /// Each destination address seen, with how many packets went to it.
    pub dest_counts: Vec<(Ipv4Address, usize)>,
}

/// Whether some entry of a count list carries the given destination.
pub open spec fn has_dest(s: Seq<(Ipv4Address, usize)>, d: Ipv4Address) -> bool
    decreases s,
{
    if s.len() == 0 {
        false
    } else {
        has_dest(s.drop_last(), d) || s.last().0 == d
    }
}

/// Whether a count list carries exactly the destinations occurring in a
/// packet list.
pub open spec fn covers(entries: Seq<(Ipv4Address, usize)>, ps: Seq<PacketInfo>) -> bool {
    forall|d: Ipv4Address| has_dest(entries, d) <==> (#[trigger] count_dest(ps, d)) > 0
}

/// A destination is carried exactly when some index holds it.
proof fn lemma_has_dest_index(s: Seq<(Ipv4Address, usize)>, d: Ipv4Address)
    ensures
        has_dest(s, d) <==> exists|k: int| 0 <= k < s.len() && (#[trigger] s[k]).0 == d,
    decreases s,
{
    if s.len() > 0 {
        lemma_has_dest_index(s.drop_last(), d);
        assert(forall|k: int|
            0 <= k < s.len() - 1 ==> (#[trigger] s.drop_last()[k]) == s[k]);
        if has_dest(s, d) {
            if s.last().0 == d {
                assert(s[s.len() - 1].0 == d);
            } else {
                let k = choose|k: int|
                    0 <= k < s.drop_last().len() && (#[trigger] s.drop_last()[k]).0 == d;
                assert(s[k].0 == d);
            }
        }
        if exists|k: int| 0 <= k < s.len() && (#[trigger] s[k]).0 == d {
            let k = choose|k: int| 0 <= k < s.len() && (#[trigger] s[k]).0 == d;
            if k < s.len() - 1 {
                assert(s.drop_last()[k].0 == d);
            }
        }
    }
}

/// Updating an entry without changing its destination carries the same
/// destinations.
proof fn lemma_has_dest_update(s: Seq<(Ipv4Address, usize)>, j: int, x: (Ipv4Address, usize))
    requires
        0 <= j < s.len(),
        s[j].0 == x.0,
    ensures
        forall|d: Ipv4Address| has_dest(#[trigger] s.update(j, x), d) == has_dest(s, d),
    decreases s,
{
    assert forall|d: Ipv4Address| has_dest(#[trigger] s.update(j, x), d) == has_dest(s, d) by {
        lemma_has_dest_index(s, d);
        lemma_has_dest_index(s.update(j, x), d);
        if has_dest(s, d) {
            let k = choose|k: int| 0 <= k < s.len() && (#[trigger] s[k]).0 == d;
            if k == j {
                assert(s.update(j, x)[j].0 == d);
            } else {
                assert(s.update(j, x)[k].0 == d);
            }
        }
        if has_dest(s.update(j, x), d) {
            let k = choose|k: int|
                0 <= k < s.update(j, x).len() && (#[trigger] s.update(j, x)[k]).0 == d;
            if k == j {
                assert(s[j].0 == d);
            } else {
                assert(s[k].0 == d);
            }
        }
    };
}

fn find_dest(entries: &Vec<(Ipv4Address, usize)>, d: Ipv4Address) -> (r: Option<usize>)
    ensures
        match r {
            Some(i) => (i as int) < entries@.len() && entries@[i as int].0 == d && has_dest(
                entries@,
                d,
            ),
            None => !has_dest(entries@, d),
        },
{
    proof {
        lemma_has_dest_index(entries@, d);
    }
    let n = entries.len();
    #[verifier::loop_isolation(false)]
    for i in 0..n
        invariant
            forall|k: int| 0 <= k < i ==> (#[trigger] entries@[k]).0 != d,
    {
        if entries[i].0.bits == d.bits {
            return Some(i);
        }
    }
    None
}

/// Walk the packets once and compute the summary: the packet count, the
/// UDP count, the byte total, and for every destination that occurs, its
/// exact occurrence count.
pub fn tally(packets: &Vec<PacketInfo>) -> (r: CaptureStats)
    requires
        total_bytes(packets@) <= u64::MAX,
    ensures
        r.packets as int == packets@.len(),
        r.udp as int == count_udp(packets@),
        r.total_transport_bytes as int == total_bytes(packets@),
        unique_dests(r.dest_counts@),
        forall|k: int|
            0 <= k < r.dest_counts@.len() ==> (#[trigger] r.dest_counts@[k]).1 as int
                == count_dest(packets@, r.dest_counts@[k].0),
        covers(r.dest_counts@, packets@),
{
    let n = packets.len();
    let mut udp: usize = 0;
    let mut total: u64 = 0;
    let mut dest_counts: Vec<(Ipv4Address, usize)> = Vec::new();
    proof {
        assert(packets@.take(0) =~= Seq::<PacketInfo>::empty());
    }
    #[verifier::loop_isolation(false)]
    for i in 0..n
        invariant
            udp as int == count_udp(packets@.take(i as int)),
            total as int == total_bytes(packets@.take(i as int)),
            unique_dests(dest_counts@),
            forall|k: int|
                0 <= k < dest_counts@.len() ==> (#[trigger] dest_counts@[k]).1 as int
                    == count_dest(packets@.take(i as int), dest_counts@[k].0),
            covers(dest_counts@, packets@.take(i as int)),
    {
        let p = packets[i];
        let ghost before = dest_counts@;
        proof {
            assert(covers(before, packets@.take(i as int)));
            assert(packets@.take(i + 1).drop_last() =~= packets@.take(i as int));
            assert(packets@.take(i + 1).last() == packets@[i as int]);
            lemma_counts_bounds(packets@.take(i as int), p.dest);
            lemma_total_bytes_prefix(packets@, i + 1);
        }
        if p.protocol == Protocol::UDP {
            udp = udp + 1;
        }
        total = total + p.transport_bytes as u64;
        match find_dest(&dest_counts, p.dest) {
            Some(j) => {
                let c = dest_counts[j].1;
                proof {
                    lemma_counts_bounds(packets@.take(i as int), dest_counts@[j as int].0);
                }
                let updated: (Ipv4Address, usize) = (p.dest, c + 1);
                dest_counts[j] = updated;
                proof {
                    lemma_has_dest_update(before, j as int, updated);
                    assert(before[j as int].0 == p.dest);
                    assert(has_dest(before, p.dest));
                    assert(unique_dests(dest_counts@)) by {
                        assert(forall|k: int|
                            0 <= k < dest_counts@.len() ==> (#[trigger] dest_counts@[k]).0
                                == before[k].0);
                    };
                    assert forall|k: int| 0 <= k < dest_counts@.len() implies (
                    #[trigger] dest_counts@[k]).1 as int == count_dest(
                        packets@.take(i + 1),
                        dest_counts@[k].0,
                    ) by {
                        assert(count_dest(packets@.take(i + 1), dest_counts@[k].0)
                            == count_dest(packets@.take(i as int), dest_counts@[k].0) + (
                        if p.dest == dest_counts@[k].0 {
                            1int
                        } else {
                            0int
                        }));
                        if k != j {
                            assert(dest_counts@[k] == before[k]);
                            assert(before[k].0 != before[j as int].0);
                        }
                    };
                    assert(covers(dest_counts@, packets@.take(i + 1))) by {
                        assert forall|d: Ipv4Address|
                            has_dest(dest_counts@, d) <==> (#[trigger] count_dest(
                                packets@.take(i + 1),
                                d,
                            )) > 0 by {
                            lemma_counts_bounds(packets@.take(i as int), d);
                            assert(count_dest(packets@.take(i + 1), d) == count_dest(
                                packets@.take(i as int),
                                d,
                            ) + (if p.dest == d {
                                1int
                            } else {
                                0int
                            }));
                            assert(has_dest(dest_counts@, d) == has_dest(before, d));
                            assert(has_dest(before, d) <==> count_dest(
                                packets@.take(i as int),
                                d,
                            ) > 0);
                        };
                    };
                }
            },
            None => {
                dest_counts.push((p.dest, 1));
                proof {
                    lemma_has_dest_index(before, p.dest);
                    assert(forall|k: int|
                        0 <= k < before.len() ==> (#[trigger] before[k]).0 != p.dest);
                    assert(dest_counts@.drop_last() =~= before);
                    assert(dest_counts@.last() == (p.dest, 1usize));
                    assert(count_dest(packets@.take(i as int), p.dest) == 0) by {
                        lemma_counts_bounds(packets@.take(i as int), p.dest);
                        assert(has_dest(before, p.dest) <==> count_dest(
                            packets@.take(i as int),
                            p.dest,
                        ) > 0);
                    };
                    assert(unique_dests(dest_counts@)) by {
                        assert(forall|k: int|
                            0 <= k < before.len() ==> #[trigger] dest_counts@[k] == before[k]);
                        assert(dest_counts@[before.len() as int].0 == p.dest);
                    };
                    assert forall|k: int| 0 <= k < dest_counts@.len() implies (
                    #[trigger] dest_counts@[k]).1 as int == count_dest(
                        packets@.take(i + 1),
                        dest_counts@[k].0,
                    ) by {
                        assert(count_dest(packets@.take(i + 1), dest_counts@[k].0)
                            == count_dest(packets@.take(i as int), dest_counts@[k].0) + (
                        if p.dest == dest_counts@[k].0 {
                            1int
                        } else {
                            0int
                        }));
                        if k < before.len() {
                            assert(dest_counts@[k] == before[k]);
                            assert(before[k].0 != p.dest);
                        } else {
                            assert(dest_counts@[k] == (p.dest, 1usize));
                        }
                    };
                    assert(covers(dest_counts@, packets@.take(i + 1))) by {
                        assert forall|d: Ipv4Address|
                            has_dest(dest_counts@, d) <==> (#[trigger] count_dest(
                                packets@.take(i + 1),
                                d,
                            )) > 0 by {
                            lemma_counts_bounds(packets@.take(i as int), d);
                            assert(count_dest(packets@.take(i + 1), d) == count_dest(
                                packets@.take(i as int),
                                d,
                            ) + (if p.dest == d {
                                1int
                            } else {
                                0int
                            }));
                            assert(has_dest(dest_counts@, d) == (has_dest(before, d) || p.dest
                                == d));
                            assert(has_dest(before, d) <==> count_dest(
                                packets@.take(i as int),
                                d,
                            ) > 0);
                        };
                    };
                }
            },
        }
    }
    proof {
        assert(packets@.take(n as int) =~= packets@);
        assert(covers(dest_counts@, packets@));
    }
    CaptureStats { packets: n, udp, total_transport_bytes: total, dest_counts }
}

/// Whether a count list is sorted with the most frequent destinations
/// first.
pub open spec fn sorted_desc(s: Seq<(Ipv4Address, usize)>) -> bool {
    forall|i: int, j: int| 0 <= i < j < s.len() ==> (#[trigger] s[i]).1 >= (#[trigger] s[j]).1
}

/// Sort a count list with the most frequent destinations first; the result
/// holds exactly the entries of the input.
pub fn sort_by_count(entries: Vec<(Ipv4Address, usize)>) -> (r: Vec<(Ipv4Address, usize)>)
    ensures
        sorted_desc(r@),
        r@.to_multiset() == entries@.to_multiset(),
        r@.len() == entries@.len(),
{
    broadcast use vstd::seq_lib::group_to_multiset_ensures;

    let n = entries.len();
    let mut r: Vec<(Ipv4Address, usize)> = Vec::new();
    proof {
        assert(entries@.take(0) =~= Seq::<(Ipv4Address, usize)>::empty());
        assert(Seq::<(Ipv4Address, usize)>::empty().to_multiset() =~= Multiset::<(
            Ipv4Address,
            usize,
        )>::empty());
    }
    #[verifier::loop_isolation(false)]
    for i in 0..n
        invariant
            sorted_desc(r@),
            r@.to_multiset() == entries@.take(i as int).to_multiset(),
            r@.len() == i,
    {
        let x = entries[i];
        let mut j: usize = 0;
        #[verifier::loop_isolation(false)]
        while j < r.len() && r[j].1 >= x.1
            invariant
                j <= r@.len(),
                forall|t: int| 0 <= t < j ==> (#[trigger] r@[t]).1 >= x.1,
            decreases r@.len() - j,
        {
            j = j + 1;
        }
        let ghost before = r@;
        r.insert(j, x);
        proof {
            vstd::seq_lib::to_multiset_insert(before, j as int, x);
            assert(entries@.take(i + 1).drop_last() =~= entries@.take(i as int));
            assert(entries@.take(i + 1) =~= entries@.take(i as int).push(x));
            assert(entries@.take(i as int).push(x).to_multiset() == entries@.take(
                i as int,
            ).to_multiset().insert(x));
            assert forall|a: int, b: int| 0 <= a < b < r@.len() implies (#[trigger] r@[a]).1 >= (
            #[trigger] r@[b]).1 by {
                if b < j {
                    assert(before[a] == r@[a] && before[b] == r@[b]);
                } else if a > j {
                    assert(before[a - 1] == r@[a] && before[b - 1] == r@[b]);
                } else if a == j {
                    assert(r@[a] == x && before[b - 1] == r@[b]);
                    assert(j < before.len());
                    assert(before[j as int].1 < x.1);
                } else if b == j {
                    assert(before[a] == r@[a] && r@[b] == x);
                } else {
                    assert(a < j && b > j);
                    assert(before[a] == r@[a] && before[b - 1] == r@[b]);
                    if j < before.len() {
                        assert(before[b - 1].1 <= x.1 || b - 1 == j as int || before[b
                            - 1].1 <= before[j as int].1);
                    }
                    assert(r@[a].1 >= x.1);
                    assert(x == r@[j as int]);
                }
            };
        }
    }
    proof {
        assert(entries@.take(n as int) =~= entries@);
    }
    r
}

/// The number of count-value changes among the first `k` entries of a
/// sorted list: the first entry opens the first tier, and each change of
/// value afterwards opens another.
pub open spec fn tier_changes(s: Seq<(Ipv4Address, usize)>, k: int) -> int
    decreases k,
{
    if k <= 1 {
        0
    } else {
        tier_changes(s, k - 1) + (if s[k - 1].1 != s[k - 2].1 {
            1int
        } else {
            0int
        })
    }
}

/// How many leading entries of a sorted count list fall within its first
/// three tiers: all of the top count, all of the second, all of the third.
pub fn top_tiers(sorted: &Vec<(Ipv4Address, usize)>) -> (taken: usize)
    ensures
        taken as int <= sorted@.len(),
        tier_changes(sorted@, taken as int) <= 2,
        (taken as int) < sorted@.len() ==> tier_changes(sorted@, taken as int + 1) == 3,
        sorted@.len() > 0 ==> taken >= 1,
{
    let n = sorted.len();
    if n == 0 {
        return 0;
    }
    let mut taken: usize = 1;
    let mut changes: usize = 0;
    #[verifier::loop_isolation(false)]
    while taken < n
        invariant
            1 <= taken <= n,
            changes <= 2,
            changes as int == tier_changes(sorted@, taken as int),
        decreases n - taken,
    {
        let step: usize = if sorted[taken].1 != sorted[taken - 1].1 {
            1
        } else {
            0
        };
        if changes + step >= 3 {
            return taken;
        }
        changes = changes + step;
        taken = taken + 1;
    }
    taken
}

} // verus!
