use vstd::prelude::*;
use vstd::string::StringExecFns;

verus! {

broadcast use
    vstd::seq_lib::group_to_multiset_ensures,
    vstd::multiset::group_multiset_axioms;

/// The classification of one graphics adapter.
#[derive(Clone, Copy, Debug, PartialEq, Eq, Structural)]
pub enum DeviceKind {
    Integrated,
    Discrete,
    Virtual,
    SoftwareRasterizer,
    Unknown,
}

/// One adapter as the graphics backend enumerates it: its name and its kind.
#[derive(Debug)]
pub struct RawAdapterDescriptor {
    pub name: String,
    pub device_kind: DeviceKind,
}

/// One reportable graphics device: its position in the original enumeration
/// order and its labelled display name.
#[derive(Debug)]
pub struct GpuRecord {
    pub device_index: usize,
    pub display_name: String,
}

/// Whether an adapter of this kind is reported at all.
pub open spec fn keep_kind(k: DeviceKind) -> bool {
    match k {
        DeviceKind::SoftwareRasterizer => false,
        DeviceKind::Unknown => false,
        _ => true,
    }
}

/// The parenthetical label appended to an adapter's name, by kind.
pub open spec fn kind_suffix(k: DeviceKind) -> Seq<char> {
    match k {
        DeviceKind::Integrated => " (Integrated GPU)"@,
        DeviceKind::Discrete => " (Discrete GPU)"@,
        DeviceKind::Virtual => " (Virtual GPU)"@,
        DeviceKind::SoftwareRasterizer => " (Software Rasterizer)"@,
        DeviceKind::Unknown => " (unknown gpu type)"@,
    }
}

/// The positions of the adapters that are reported, in ascending order.
pub open spec fn kept_indices(s: Seq<RawAdapterDescriptor>) -> Seq<int>
    decreases s.len(),
{
    if s.len() == 0 {
        Seq::empty()
    } else {
        kept_indices(s.drop_last()) + if keep_kind(s.last().device_kind) {
            seq![s.len() - 1]
        } else {
            Seq::empty()
        }
    }
}

/// Every kept position is a valid index of a reported adapter, and the kept
/// positions ascend strictly.
pub proof fn lemma_kept_bounds(s: Seq<RawAdapterDescriptor>)
    ensures
        forall|t: int|
            #![auto]
            0 <= t < kept_indices(s).len() ==> 0 <= kept_indices(s)[t] < s.len() && keep_kind(
                s[kept_indices(s)[t]].device_kind,
            ),
        forall|t: int, u: int|
            #![auto]
            0 <= t < u < kept_indices(s).len() ==> kept_indices(s)[t] < kept_indices(s)[u],
    decreases s.len(),
{
    if s.len() > 0 {
        lemma_kept_bounds(s.drop_last());
        let pre = kept_indices(s.drop_last());
        assert forall|t: int|
            0 <= t < kept_indices(s).len() implies 0 <= kept_indices(s)[t] < s.len() && keep_kind(
            s[#[trigger] kept_indices(s)[t]].device_kind,
        ) by {
            if t < pre.len() {
                assert(kept_indices(s)[t] == pre[t]);
                assert(s.drop_last()[pre[t]] == s[pre[t]]);
            } else {
                assert(kept_indices(s)[t] == s.len() - 1);
            }
        }
    }
}

/// Every reported adapter's position is among the kept positions.
pub proof fn lemma_kept_complete(s: Seq<RawAdapterDescriptor>)
    ensures
        forall|j: int|
            #![auto]
            0 <= j < s.len() && keep_kind(s[j].device_kind) ==> kept_indices(s).contains(j),
    decreases s.len(),
{
    if s.len() > 0 {
        lemma_kept_complete(s.drop_last());
        let pre = kept_indices(s.drop_last());
        assert forall|j: int|
            0 <= j < s.len() && keep_kind(#[trigger] s[j].device_kind) implies kept_indices(
            s,
        ).contains(j) by {
            if j < s.len() - 1 {
                assert(s.drop_last()[j] == s[j]);
                assert(pre.contains(j));
                let t = choose|t: int| 0 <= t < pre.len() && pre[t] == j;
                assert(kept_indices(s)[t] == j);
            } else {
                assert(kept_indices(s)[kept_indices(s).len() - 1] == j);
            }
        }
    }
}

/// The records r report exactly the kept adapters of the input, in kept
/// order: the t-th record carries the t-th kept position and the name of the
/// adapter there with its kind's label appended.
pub open spec fn gpu_list_matches(adapters: Seq<RawAdapterDescriptor>, r: Seq<GpuRecord>) -> bool {
    &&& r.len() == kept_indices(adapters).len()
    &&& forall|t: int|
        #![auto]
        0 <= t < r.len() ==> r[t].device_index as int == kept_indices(adapters)[t]
            && r[t].display_name@ == adapters[kept_indices(adapters)[t]].name@ + kind_suffix(
            adapters[kept_indices(adapters)[t]].device_kind,
        )
}

/// The records ascend by device index.
pub open spec fn sorted_by_index(s: Seq<GpuRecord>) -> bool {
    forall|i: int, j: int|
        #![trigger s[i], s[j]]
        0 <= i < j < s.len() ==> s[i].device_index <= s[j].device_index
}

/// The records ascend strictly by device index.
pub open spec fn strict_sorted_by_index(s: Seq<GpuRecord>) -> bool {
    forall|i: int, j: int|
        #![trigger s[i], s[j]]
        0 <= i < j < s.len() ==> s[i].device_index < s[j].device_index
}

/// A sorted rearrangement of a strictly sorted sequence is that sequence.
pub proof fn lemma_sorted_perm_of_strict(a: Seq<GpuRecord>, b: Seq<GpuRecord>)
    requires
        strict_sorted_by_index(a),
        sorted_by_index(b),
        a.to_multiset() == b.to_multiset(),
    ensures
        a =~= b,
    decreases a.len(),
{
    a.to_multiset_ensures();
    b.to_multiset_ensures();
    if a.len() == 0 {
    } else {
        assert(a.contains(a[0]));
        assert(a.to_multiset().count(a[0]) > 0);
        assert(b.to_multiset().count(a[0]) > 0);
        assert(b.contains(a[0]));
        assert(b.contains(b[0]));
        assert(b.to_multiset().count(b[0]) > 0);
        assert(a.to_multiset().count(b[0]) > 0);
        assert(a.contains(b[0]));
        let j = choose|j: int| 0 <= j < b.len() && b[j] == a[0];
        let i = choose|i: int| 0 <= i < a.len() && a[i] == b[0];
        assert(b[0].device_index <= b[j].device_index);
        assert(a[0].device_index <= a[i].device_index);
        assert(b[0].device_index == a[0].device_index);
        assert(i == 0);
        assert(b[0] == a[0]);
        let a1 = a.drop_first();
        let b1 = b.drop_first();
        assert(a.remove(0) =~= a1);
        assert(b.remove(0) =~= b1);
        assert(a1.to_multiset() == a.to_multiset().remove(a[0]));
        assert(b1.to_multiset() == b.to_multiset().remove(b[0]));
        assert(strict_sorted_by_index(a1)) by {
            assert forall|p: int, q: int|
                #![trigger a1[p], a1[q]]
                0 <= p < q < a1.len() implies a1[p].device_index < a1[q].device_index by {
                assert(a1[p] == a[p + 1]);
                assert(a1[q] == a[q + 1]);
            }
        }
        assert(sorted_by_index(b1)) by {
            assert forall|p: int, q: int|
                #![trigger b1[p], b1[q]]
                0 <= p < q < b1.len() implies b1[p].device_index <= b1[q].device_index by {
                assert(b1[p] == b[p + 1]);
                assert(b1[q] == b[q + 1]);
            }
        }
        lemma_sorted_perm_of_strict(a1, b1);
        assert forall|t: int| 0 <= t < a.len() implies a[t] == b[t] by {
            if t > 0 {
                assert(a[t] == a1[t - 1]);
                assert(b[t] == b1[t - 1]);
            }
        }
    }
}

/// Rearranges the records into ascending device-index order. The result
/// holds exactly the given records.
pub fn sort_by_device_index(records: Vec<GpuRecord>) -> (r: Vec<GpuRecord>)
    ensures
        sorted_by_index(r@),
        r@.to_multiset() == records@.to_multiset(),
{
    let ghost all: Seq<GpuRecord> = records@;
    let mut rest = records;
    let mut out: Vec<GpuRecord> = Vec::new();
    while rest.len() > 0
        invariant
            out@.to_multiset().add(rest@.to_multiset()) == all.to_multiset(),
            sorted_by_index(out@),
        decreases rest@.len(),
    {
        let ghost old_rest: Seq<GpuRecord> = rest@;
        let ghost old_out: Seq<GpuRecord> = out@;
        let x = rest.pop().unwrap();
        proof {
            assert(old_rest.remove(old_rest.len() - 1) =~= rest@);
            assert(rest@.to_multiset() == old_rest.to_multiset().remove(x));
            assert(old_rest.contains(x));
        }
        let mut p: usize = 0;
        while p < out.len() && out[p].device_index <= x.device_index
            invariant
                p <= out@.len(),
                forall|t: int| #![auto] 0 <= t < p ==> out@[t].device_index <= x.device_index,
            decreases out@.len() - p,
        {
            p = p + 1;
        }
        out.insert(p, x);
        proof {
            old_out.insert_ensures(p as int, x);
            assert(out@.to_multiset() == old_out.to_multiset().insert(x));
            assert(out@.to_multiset().add(rest@.to_multiset()) =~= all.to_multiset());
            assert forall|i: int, j: int|
                #![trigger out@[i], out@[j]]
                0 <= i < j < out@.len() implies out@[i].device_index
                <= out@[j].device_index by {
                if j < p {
                    assert(out@[i] == old_out[i]);
                    assert(out@[j] == old_out[j]);
                } else if j == p {
                    assert(out@[i] == old_out[i]);
                } else {
                    assert(out@[j] == old_out[j - 1]);
                    if i < p {
                        assert(out@[i] == old_out[i]);
                        if p < old_out.len() {
                            assert(old_out[i].device_index <= old_out[j - 1].device_index);
                        }
                    } else if i == p {
                        assert(x.device_index < old_out[p as int].device_index);
                        assert(old_out[p as int].device_index <= old_out[j - 1].device_index);
                    } else {
                        assert(out@[i] == old_out[i - 1]);
                    }
                }
            }
        }
    }
    out
}

/// The fixed label text for one adapter kind.
fn kind_suffix_str(k: DeviceKind) -> (r: &'static str)
    ensures
        r@ == kind_suffix(k),
{
    match k {
        DeviceKind::Integrated => " (Integrated GPU)",
        DeviceKind::Discrete => " (Discrete GPU)",
        DeviceKind::Virtual => " (Virtual GPU)",
        DeviceKind::SoftwareRasterizer => " (Software Rasterizer)",
        DeviceKind::Unknown => " (unknown gpu type)",
    }
}

/// Walks the adapters in enumeration order, drops the software rasterizers
/// and the adapters of unknown kind, labels each kept adapter's name with its
/// kind, keeps each kept adapter's original position, and returns the records
/// in ascending order of that position.
pub fn enumerate_gpus(adapters: &Vec<RawAdapterDescriptor>) -> (r: Vec<GpuRecord>)
    ensures
        gpu_list_matches(adapters@, r@),
        strict_sorted_by_index(r@),
{
    let ghost all: Seq<RawAdapterDescriptor> = adapters@;
    let mut v: Vec<GpuRecord> = Vec::new();
    let mut k: usize = 0;
    while k < adapters.len()
        invariant
            k <= all.len(),
            all == adapters@,
            gpu_list_matches(all.take(k as int), v@),
        decreases all.len() - k,
    {
        let ghost prefix: Seq<RawAdapterDescriptor> = all.take(k as int);
        let ghost prefix1: Seq<RawAdapterDescriptor> = all.take(k + 1int);
        proof {
            assert(prefix1.drop_last() =~= prefix);
            assert(prefix1.last() == all[k as int]);
        }
        let kind = adapters[k].device_kind;
        match kind {
            DeviceKind::SoftwareRasterizer => {},
            DeviceKind::Unknown => {},
            _ => {
                let mut display = adapters[k].name.clone();
                display.append(kind_suffix_str(kind));
                let rec = GpuRecord { device_index: k, display_name: display };
                let ghost old_v: Seq<GpuRecord> = v@;
                v.push(rec);
                proof {
                    assert(kept_indices(prefix1) =~= kept_indices(prefix) + seq![k as int]);
                    assert forall|t: int|
                        0 <= t < v@.len() implies #[trigger] v@[t].device_index as int
                        == kept_indices(prefix1)[t] && v@[t].display_name@ == prefix1[kept_indices(
                        prefix1,
                    )[t]].name@ + kind_suffix(
                        prefix1[kept_indices(prefix1)[t]].device_kind,
                    ) by {
                        if t < old_v.len() {
                            assert(v@[t] == old_v[t]);
                            assert(kept_indices(prefix1)[t] == kept_indices(prefix)[t]);
                            lemma_kept_bounds(prefix);
                            assert(prefix1[kept_indices(prefix)[t]] == prefix[kept_indices(
                                prefix,
                            )[t]]);
                        } else {
                            assert(kept_indices(prefix1)[t] == k as int);
                        }
                    }
                }
            },
        }
        k = k + 1;
        proof {
            if !keep_kind(all[k - 1int].device_kind) {
                assert(kept_indices(prefix1) =~= kept_indices(prefix));
                assert forall|t: int|
                    0 <= t < v@.len() implies #[trigger] v@[t].device_index as int == kept_indices(
                    prefix1,
                )[t] && v@[t].display_name@ == prefix1[kept_indices(prefix1)[t]].name@
                    + kind_suffix(prefix1[kept_indices(prefix1)[t]].device_kind) by {
                    lemma_kept_bounds(prefix);
                    assert(kept_indices(prefix1)[t] == kept_indices(prefix)[t]);
                    assert(prefix1[kept_indices(prefix)[t]] == prefix[kept_indices(prefix)[t]]);
                }
            }
            assert(all.take(k as int) == prefix1);
        }
    }
    proof {
        assert(all.take(all.len() as int) =~= all);
        lemma_kept_bounds(all);
        assert forall|i: int, j: int|
            #![trigger v@[i], v@[j]]
            0 <= i < j < v@.len() implies v@[i].device_index < v@[j].device_index by {
            assert(kept_indices(all)[i] < kept_indices(all)[j]);
        }
    }
    let ghost v0: Seq<GpuRecord> = v@;
    let r = sort_by_device_index(v);
    proof {
        lemma_sorted_perm_of_strict(v0, r@);
    }
    r
}

/// Exactly the adapters of a reportable kind appear among the records, each
/// under its original enumeration position.
pub proof fn lemma_enumerate_filters(adapters: Seq<RawAdapterDescriptor>, r: Seq<GpuRecord>)
    requires
        gpu_list_matches(adapters, r),
    ensures
        forall|t: int|
            #![auto]
            0 <= t < r.len() ==> 0 <= r[t].device_index < adapters.len() && keep_kind(
                adapters[r[t].device_index as int].device_kind,
            ),
        forall|j: int|
            #![auto]
            0 <= j < adapters.len() && keep_kind(adapters[j].device_kind) ==> exists|t: int|
                #![auto]
                0 <= t < r.len() && r[t].device_index as int == j,
{
    lemma_kept_bounds(adapters);
    lemma_kept_complete(adapters);
    assert forall|t: int|
        0 <= t < r.len() implies 0 <= #[trigger] r[t].device_index < adapters.len() && keep_kind(
        adapters[r[t].device_index as int].device_kind,
    ) by {
        assert(r[t].device_index as int == kept_indices(adapters)[t]);
        assert(0 <= kept_indices(adapters)[t] < adapters.len());
    }
    assert forall|j: int|
        0 <= j < adapters.len() && keep_kind(#[trigger] adapters[j].device_kind) implies exists|
        t: int,
    |
        #![auto]
        0 <= t < r.len() && r[t].device_index as int == j by {
        assert(kept_indices(adapters).contains(j));
        let t = choose|t: int|
            0 <= t < kept_indices(adapters).len() && kept_indices(adapters)[t] == j;
        assert(r[t].device_index as int == j);
    }
}

} // verus!
