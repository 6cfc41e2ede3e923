//! Collapsing of stale receiver pairings: re-pairing a device can leave an
//! extra slot on the receiver with the same codename.

use vstd::prelude::*;
use vstd::string::StrSliceExecFns;

use crate::battery::DeviceBattery;

verus! {

/// Index of the last ':' in `id`, or -1.
pub open spec fn last_colon(id: Seq<char>) -> int
    decreases id.len(),
{
    if id.len() == 0 {
        -1
    } else if id.last() == ':' {
        id.len() - 1
    } else {
        last_colon(id.drop_last())
    }
}

/// The receiver part of an entry id (`hidpp:<receiver>:<slot>`): everything
/// before the last ':', or None when there is no ':'.
pub open spec fn receiver_of(id: Seq<char>) -> Option<Seq<char>> {
    if last_colon(id) < 0 {
        None
    } else {
        Some(id.take(last_colon(id)))
    }
}

/// Two entries for the same name on the same receiver.
pub open spec fn same_pairing(a: DeviceBattery, b: DeviceBattery) -> bool {
    a.name@ == b.name@ && receiver_of(a.id@) == receiver_of(b.id@)
}

/// Index of the first entry of `out` paired like `d`, or -1.
pub open spec fn first_pairing(out: Seq<DeviceBattery>, d: DeviceBattery) -> int
    decreases out.len(),
{
    if out.len() == 0 {
        -1
    } else {
        let f = first_pairing(out.drop_last(), d);
        if f >= 0 {
            f
        } else if same_pairing(out.last(), d) {
            out.len() - 1
        } else {
            -1
        }
    }
}

/// One entry added to the collapsed list: an offline duplicate is dropped, an
/// online entry replaces an offline one, and two online entries are kept as
/// two real identical devices.
pub open spec fn dedup_step(out: Seq<DeviceBattery>, d: DeviceBattery) -> Seq<DeviceBattery> {
    let i = first_pairing(out, d);
    if i < 0 {
        out.push(d)
    } else if !d.online {
        out
    } else if !out[i].online {
        out.update(i, d)
    } else {
        out.push(d)
    }
}

/// All entries added in order.
pub open spec fn dedup_spec(devices: Seq<DeviceBattery>) -> Seq<DeviceBattery>
    decreases devices.len(),
{
    if devices.len() == 0 {
        Seq::<DeviceBattery>::empty()
    } else {
        dedup_step(dedup_spec(devices.drop_last()), devices.last())
    }
}

fn last_colon_index(id: &str) -> (r: Option<usize>)
    ensures
        r is None ==> last_colon(id@) < 0,
        r matches Some(k) ==> last_colon(id@) == k && k < id@.len(),
{
    let mut end = id.unicode_len();
    assert(id@.take(end as int) =~= id@);
    while end > 0
        invariant
            end <= id@.len(),
            last_colon(id@) == last_colon(id@.take(end as int)),
        decreases end,
    {
        assert(id@.take(end as int).drop_last() =~= id@.take(end - 1));
        if id.get_char(end - 1) == ':' {
            return Some(end - 1);
        }
        end = end - 1;
    }
    None
}

fn same_prefix(a: &str, na: usize, b: &str, nb: usize) -> (r: bool)
    requires
        na <= a@.len(),
        nb <= b@.len(),
    ensures
        r == (a@.take(na as int) == b@.take(nb as int)),
{
    if na != nb {
        assert(a@.take(na as int).len() != b@.take(nb as int).len());
        return false;
    }
    let mut i: usize = 0;
    while i < na
        invariant
            na == nb,
            na <= a@.len(),
            nb <= b@.len(),
            i <= na,
            forall|j: int| 0 <= j < i ==> a@[j] == b@[j],
        decreases na - i,
    {
        if a.get_char(i) != b.get_char(i) {
            assert(a@.take(na as int)[i as int] != b@.take(nb as int)[i as int]);
            return false;
        }
        i = i + 1;
    }
    assert(a@.take(na as int) =~= b@.take(nb as int));
    true
}

/// Whether two ids name the same receiver.
pub fn same_receiver(a: &str, b: &str) -> (r: bool)
    ensures
        r == (receiver_of(a@) == receiver_of(b@)),
{
    match (last_colon_index(a), last_colon_index(b)) {
        (None, None) => true,
        (Some(ka), Some(kb)) => same_prefix(a, ka, b, kb),
        _ => false,
    }
}

fn first_pairing_index(out: &Vec<DeviceBattery>, d: &DeviceBattery) -> (r: Option<usize>)
    ensures
        r is None ==> first_pairing(out@, *d) < 0,
        r matches Some(i) ==> first_pairing(out@, *d) == i && i < out@.len(),
{
    let mut i: usize = 0;
    while i < out.len()
        invariant
            i <= out@.len(),
            first_pairing(out@.take(i as int), *d) < 0,
        decreases out@.len() - i,
    {
        assert(out@.take(i + 1).drop_last() =~= out@.take(i as int));
        if out[i].name == d.name && same_receiver(out[i].id.as_str(), d.id.as_str()) {
            proof {
                lemma_first_pairing_prefix(out@, *d, i + 1);
            }
            return Some(i);
        }
        i = i + 1;
    }
    assert(out@.take(i as int) =~= out@);
    None
}

/// A first match found in a prefix is the first match of the whole sequence.
proof fn lemma_first_pairing_prefix(out: Seq<DeviceBattery>, d: DeviceBattery, n: int)
    requires
        0 <= n <= out.len(),
        first_pairing(out.take(n), d) >= 0,
    ensures
        first_pairing(out, d) == first_pairing(out.take(n), d),
    decreases out.len(),
{
    if n < out.len() {
        assert(out.drop_last().take(n) =~= out.take(n));
        lemma_first_pairing_prefix(out.drop_last(), d, n);
    } else {
        assert(out.take(n) =~= out);
    }
}

/// Collapse same-name entries on the same receiver: online entries win over
/// offline ones, and offline duplicates collapse to one.
pub fn dedup_stale_pairings(devices: Vec<DeviceBattery>) -> (r: Vec<DeviceBattery>)
    ensures
        r@ == dedup_spec(devices@),
{
    let mut out: Vec<DeviceBattery> = Vec::new();
    let mut rest = devices;
    let ghost all = devices@;
    assert(all.take(0) =~= Seq::<DeviceBattery>::empty());
    assert(all.skip(0) =~= all);
    while rest.len() > 0
        invariant
            rest@.len() <= all.len(),
            rest@ == all.skip(all.len() - rest@.len()),
            out@ == dedup_spec(all.take(all.len() - rest@.len())),
        decreases rest@.len(),
    {
        let ghost k = all.len() - rest@.len();
        let ghost before = rest@;
        let d = rest.remove(0);
        assert(all.skip(k + 1) =~= rest@);
        assert(all.take(k + 1).drop_last() =~= all.take(k));
        assert(all.take(k + 1).last() == d);
        match first_pairing_index(&out, &d) {
            None => out.push(d),
            Some(i) => {
                if !d.online {
                } else if !out[i].online {
                    out.set(i, d);
                } else {
                    out.push(d);
                }
            },
        }
    }
    assert(all.take(all.len() as int) =~= all);
    out
}

proof fn lemma_first_pairing_bounds(out: Seq<DeviceBattery>, d: DeviceBattery)
    ensures
        first_pairing(out, d) < out.len(),
        first_pairing(out, d) >= 0 ==> same_pairing(out[first_pairing(out, d)], d),
        first_pairing(out, d) < 0 ==> forall|k: int|
            0 <= k < out.len() ==> !same_pairing(#[trigger] out[k], d),
    decreases out.len(),
{
    if out.len() > 0 {
        lemma_first_pairing_bounds(out.drop_last(), d);
        if first_pairing(out, d) < 0 {
            assert forall|k: int| 0 <= k < out.len() implies !same_pairing(#[trigger] out[k], d) by {
                if k < out.len() - 1 {
                    assert(out.drop_last()[k] == out[k]);
                }
            }
        } else if first_pairing(out.drop_last(), d) >= 0 {
            assert(out.drop_last()[first_pairing(out, d)] == out[first_pairing(out, d)]);
        }
    }
}

/// Entries of the same pairing in the collapsed list are all online.
pub open spec fn duplicates_online(out: Seq<DeviceBattery>) -> bool {
    forall|i: int, j: int|
        0 <= i < out.len() && 0 <= j < out.len() && i != j && same_pairing(
            #[trigger] out[i],
            #[trigger] out[j],
        ) ==> out[i].online && out[j].online
}

proof fn lemma_step_keeps_duplicates_online(out: Seq<DeviceBattery>, d: DeviceBattery)
    requires
        duplicates_online(out),
    ensures
        duplicates_online(dedup_step(out, d)),
{
    lemma_first_pairing_bounds(out, d);
    let i = first_pairing(out, d);
    let r = dedup_step(out, d);
    if i < 0 {
        assert forall|a: int, b: int|
            0 <= a < r.len() && 0 <= b < r.len() && a != b && same_pairing(
                #[trigger] r[a],
                #[trigger] r[b],
            ) implies r[a].online && r[b].online by {
            if a == out.len() as int {
                assert(!same_pairing(out[b], d));
            } else if b == out.len() as int {
                assert(!same_pairing(out[a], d));
            }
        }
    } else if !d.online {
    } else if !out[i].online {
        assert forall|a: int, b: int|
            0 <= a < r.len() && 0 <= b < r.len() && a != b && same_pairing(
                #[trigger] r[a],
                #[trigger] r[b],
            ) implies r[a].online && r[b].online by {
            if a == i {
                // out[b] would be a duplicate of the offline out[i]
                assert(same_pairing(out[i], out[b]));
            } else if b == i {
                assert(same_pairing(out[a], out[i]));
            }
        }
    } else {
        assert forall|a: int, b: int|
            0 <= a < r.len() && 0 <= b < r.len() && a != b && same_pairing(
                #[trigger] r[a],
                #[trigger] r[b],
            ) implies r[a].online && r[b].online by {
            if a == out.len() as int && b != i {
                assert(same_pairing(out[b], out[i]));
            } else if b == out.len() as int && a != i {
                assert(same_pairing(out[a], out[i]));
            }
        }
    }
}

/// After collapsing, two entries of the same name on the same receiver are
/// both online: offline duplicates collapse to one and lose to online entries.
pub proof fn law_dedup_duplicates_online(devices: Seq<DeviceBattery>)
    ensures
        duplicates_online(dedup_spec(devices)),
    decreases devices.len(),
{
    if devices.len() > 0 {
        law_dedup_duplicates_online(devices.drop_last());
        lemma_step_keeps_duplicates_online(dedup_spec(devices.drop_last()), devices.last());
    }
}

/// Every online entry survives the collapse.
pub proof fn law_dedup_keeps_online(devices: Seq<DeviceBattery>, k: int)
    requires
        0 <= k < devices.len(),
        devices[k].online,
    ensures
        dedup_spec(devices).contains(devices[k]),
    decreases devices.len(),
{
    let prev = dedup_spec(devices.drop_last());
    let d = devices.last();
    lemma_first_pairing_bounds(prev, d);
    let i = first_pairing(prev, d);
    let r = dedup_spec(devices);
    if k == devices.len() - 1 {
        if i < 0 || prev[i].online {
            assert(r[prev.len() as int] == d);
        } else {
            assert(r[i] == d);
        }
    } else {
        law_dedup_keeps_online(devices.drop_last(), k);
        assert(devices.drop_last()[k] == devices[k]);
        let x = devices[k];
        let j = choose|j: int| 0 <= j < prev.len() && prev[j] == x;
        if i >= 0 && d.online && !prev[i].online {
            assert(j != i);
            assert(r[j] == x);
        } else {
            assert(r[j] == x);
        }
    }
}

/// Collapsing never adds entries.
pub proof fn law_dedup_never_grows(devices: Seq<DeviceBattery>)
    ensures
        dedup_spec(devices).len() <= devices.len(),
    decreases devices.len(),
{
    if devices.len() > 0 {
        law_dedup_never_grows(devices.drop_last());
        lemma_first_pairing_bounds(dedup_spec(devices.drop_last()), devices.last());
    }
}

/// Collapsing a list whose same-pairing entries are all online keeps every
/// prefix as it is.
proof fn lemma_dedup_fixed(out: Seq<DeviceBattery>, n: int)
    requires
        duplicates_online(out),
        0 <= n <= out.len(),
    ensures
        dedup_spec(out.take(n)) == out.take(n),
    decreases n,
{
    if n > 0 {
        lemma_dedup_fixed(out, n - 1);
        let prefix = out.take(n - 1);
        let d = out[n - 1];
        assert(out.take(n).drop_last() =~= prefix);
        assert(out.take(n).last() == d);
        lemma_first_pairing_bounds(prefix, d);
        let i = first_pairing(prefix, d);
        if i >= 0 {
            assert(prefix[i] == out[i]);
            assert(same_pairing(out[i], out[n - 1]));
            assert(out[i].online && out[n - 1].online);
        }
        assert(dedup_step(prefix, d) =~= out.take(n));
    }
}

/// Collapsing twice gives what collapsing once gives.
pub proof fn law_dedup_idempotent(devices: Seq<DeviceBattery>)
    ensures
        dedup_spec(dedup_spec(devices)) == dedup_spec(devices),
{
    let out = dedup_spec(devices);
    law_dedup_duplicates_online(devices);
    lemma_dedup_fixed(out, out.len() as int);
    assert(out.take(out.len() as int) =~= out);
}

} // verus!
