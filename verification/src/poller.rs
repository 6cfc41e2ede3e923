//! The decisions of the polling loop: combining the results of all sources,
//! and which devices get a low-battery notification.

use vstd::prelude::*;
use vstd::string::StringExecFns;

use crate::battery::{law_merge_keeps_primary, merge, merge_spec, DeviceBattery};

verus! {

/// The entry lists of the sources as sequences.
pub open spec fn lists(results: Seq<Vec<DeviceBattery>>) -> Seq<Seq<DeviceBattery>> {
    Seq::new(results.len(), |i: int| results[i]@)
}

/// The sources' results merged in order: earlier sources win.
pub open spec fn merge_all_spec(results: Seq<Seq<DeviceBattery>>) -> Seq<DeviceBattery>
    decreases results.len(),
{
    if results.len() == 0 {
        Seq::<DeviceBattery>::empty()
    } else if results.len() == 1 {
        results[0]
    } else {
        merge_spec(merge_all_spec(results.drop_last()), results.last())
    }
}

/// Merge the results of all sources, the first (primary) source first.
pub fn merge_all(results: Vec<Vec<DeviceBattery>>) -> (r: Vec<DeviceBattery>)
    ensures
        r@ == merge_all_spec(lists(results@)),
        results@.len() >= 1 ==> r@.len() >= results@[0]@.len() && r@.subrange(
            0,
            results@[0]@.len() as int,
        ) == results@[0]@,
        results@.len() == 1 ==> r@ == results@[0]@,
{
    proof {
        if results@.len() >= 1 {
            law_merge_all_keeps_first_source(lists(results@));
        }
    }
    let ghost all = lists(results@);
    let mut rest = results;
    if rest.len() == 0 {
        return Vec::new();
    }
    let mut acc = rest.remove(0);
    assert(all.take(1) =~= seq![all[0]]);
    assert(merge_all_spec(all.take(1)) == all[0]);
    while rest.len() > 0
        invariant
            1 <= all.len(),
            rest@.len() < all.len(),
            lists(rest@) == all.skip(all.len() - rest@.len()),
            acc@ == merge_all_spec(all.take(all.len() - rest@.len())),
        decreases rest@.len(),
    {
        let ghost k = all.len() - rest@.len();
        let ghost before = rest@;
        let next = rest.remove(0);
        assert(rest@ =~= before.drop_first());
        assert(lists(rest@) =~= lists(before).drop_first());
        assert(all.skip(k + 1) =~= all.skip(k).drop_first());
        assert(lists(before)[0] == next@);
        assert(all.take(k + 1).drop_last() =~= all.take(k));
        assert(all.take(k + 1).last() == next@);
        acc = merge(acc, next);
    }
    assert(all.take(all.len() as int) =~= all);
    acc
}

/// A device that is online, discharging and at or below the threshold.
pub open spec fn is_low(d: DeviceBattery, threshold: u8) -> bool {
    d.online && !d.charging && (d.percentage matches Some(p) && p <= threshold)
}

/// A device that charges (online or not), or is online above the threshold.
pub open spec fn is_recovered(d: DeviceBattery, threshold: u8) -> bool {
    d.charging || (d.online && (d.percentage matches Some(p) && p > threshold))
}

/// One device considered: a recovered device is re-armed (its id leaves the
/// alerted set); a low one is notified when its id was not yet in the set,
/// and then enters it; a device that does not charge and is offline or
/// reports no percentage leaves the set as it is, so its discharge cycle goes on.
pub open spec fn alert_step(alerted: Set<Seq<char>>, d: DeviceBattery, threshold: u8) -> (Set<Seq<char>>, bool) {
    if is_recovered(d, threshold) {
        (alerted.remove(d.id@), false)
    } else if !is_low(d, threshold) {
        (alerted, false)
    } else if alerted.contains(d.id@) {
        (alerted, false)
    } else {
        (alerted.insert(d.id@), true)
    }
}

/// All devices considered in order: the final alerted set and the indices of
/// the devices to notify.
pub open spec fn alerts_spec(devices: Seq<DeviceBattery>, threshold: u8, alerted: Set<Seq<char>>) -> (Set<Seq<char>>, Seq<usize>)
    decreases devices.len(),
{
    if devices.len() == 0 {
        (alerted, Seq::<usize>::empty())
    } else {
        let (s, n) = alerts_spec(devices.drop_last(), threshold, alerted);
        let (s2, notify) = alert_step(s, devices.last(), threshold);
        (s2, if notify { n.push((devices.len() - 1) as usize) } else { n })
    }
}

/// The ids held in an alerted list.
pub open spec fn id_set(ids: Seq<String>) -> Set<Seq<char>> {
    Set::new(|s: Seq<char>| exists|i: int| 0 <= i < ids.len() && (#[trigger] ids[i])@ == s)
}

/// No id occurs twice.
pub open spec fn distinct_ids(ids: Seq<String>) -> bool {
    forall|i: int, j: int| 0 <= i < j < ids.len() ==> (#[trigger] ids[i])@ != (#[trigger] ids[j])@
}

fn find_id(ids: &Vec<String>, id: &String) -> (r: Option<usize>)
    ensures
        r is None ==> !id_set(ids@).contains(id@),
        r matches Some(i) ==> i < ids@.len() && ids@[i as int]@ == id@,
{
    let mut i: usize = 0;
    while i < ids.len()
        invariant
            i <= ids@.len(),
            forall|j: int| 0 <= j < i ==> (#[trigger] ids@[j])@ != id@,
        decreases ids@.len() - i,
    {
        if crate::text::same_chars(ids[i].as_str(), id.as_str()) {
            return Some(i);
        }
        i = i + 1;
    }
    None
}

/// Decide the low-battery notifications of one poll: returns the indices of
/// the devices to notify and updates the set of alerted ids, so that one
/// notification is raised per discharge cycle.
pub fn low_battery_alerts(devices: &Vec<DeviceBattery>, threshold: u8, alerted: &mut Vec<String>) -> (notify: Vec<usize>)
    requires
        distinct_ids(old(alerted)@),
    ensures
        distinct_ids(final(alerted)@),
        (id_set(final(alerted)@), notify@) == alerts_spec(devices@, threshold, id_set(old(alerted)@)),
{
    let mut notify: Vec<usize> = Vec::new();
    let ghost start = id_set(alerted@);
    let mut k: usize = 0;
    assert(devices@.take(0) =~= Seq::<DeviceBattery>::empty());
    while k < devices.len()
        invariant
            k <= devices@.len(),
            distinct_ids(alerted@),
            (id_set(alerted@), notify@) == alerts_spec(devices@.take(k as int), threshold, start),
        decreases devices@.len() - k,
    {
        let d = &devices[k];
        assert(devices@.take(k + 1).drop_last() =~= devices@.take(k as int));
        assert(devices@.take(k + 1).last() == *d);
        let low = d.online && !d.charging && match d.percentage {
            Some(p) => p <= threshold,
            None => false,
        };
        let recovered = d.charging || (d.online && match d.percentage {
            Some(p) => p > threshold,
            None => false,
        });
        let ghost before = alerted@;
        match find_id(alerted, &d.id) {
            Some(i) => {
                if recovered {
                    alerted.remove(i);
                    assert forall|j: int, l: int| 0 <= j < l < alerted@.len() implies (#[trigger] alerted@[j])@ != (#[trigger] alerted@[l])@ by {
                        let jj = if j < i { j } else { j + 1 };
                        let ll = if l < i { l } else { l + 1 };
                        assert(alerted@[j] == before[jj]);
                        assert(alerted@[l] == before[ll]);
                    }
                    assert(id_set(alerted@) =~= id_set(before).remove(d.id@)) by {
                        assert forall|s: Seq<char>| id_set(alerted@).contains(s) <==> id_set(before).remove(d.id@).contains(s) by {
                            if id_set(alerted@).contains(s) {
                                let j = choose|j: int| 0 <= j < alerted@.len() && (#[trigger] alerted@[j])@ == s;
                                let jj = if j < i { j } else { j + 1 };
                                assert(alerted@[j] == before[jj]);
                                assert(jj != i);
                            }
                            if id_set(before).remove(d.id@).contains(s) {
                                let j = choose|j: int| 0 <= j < before.len() && (#[trigger] before[j])@ == s;
                                assert(j != i);
                                let jj = if j < i { j } else { j - 1 };
                                assert(alerted@[jj] == before[j]);
                            }
                        }
                    }
                }
            },
            None => {
                if recovered {
                    assert(id_set(alerted@) =~= id_set(before).remove(d.id@));
                } else if !low {
                } else {
                    alerted.push(String::from_str(d.id.as_str()));
                    assert(id_set(alerted@) =~= id_set(before).insert(d.id@)) by {
                        assert(alerted@[before.len() as int]@ == d.id@);
                        assert forall|s: Seq<char>| id_set(alerted@).contains(s) <==> id_set(before).insert(d.id@).contains(s) by {
                            if id_set(alerted@).contains(s) {
                                let j = choose|j: int| 0 <= j < alerted@.len() && (#[trigger] alerted@[j])@ == s;
                                if j < before.len() {
                                    assert(alerted@[j] == before[j]);
                                }
                            }
                            if id_set(before).contains(s) {
                                let j = choose|j: int| 0 <= j < before.len() && (#[trigger] before[j])@ == s;
                                assert(alerted@[j] == before[j]);
                            }
                        }
                    }
                    assert forall|j: int, l: int| 0 <= j < l < alerted@.len() implies (#[trigger] alerted@[j])@ != (#[trigger] alerted@[l])@ by {
                        if l == before.len() {
                            assert(alerted@[j] == before[j]);
                        } else {
                            assert(alerted@[j] == before[j]);
                            assert(alerted@[l] == before[l]);
                        }
                    }
                    notify.push(k);
                }
            },
        }
        k = k + 1;
    }
    assert(devices@.take(devices@.len() as int) =~= devices@);
    notify
}

/// A device already alerted and still low is not notified again.
pub proof fn law_no_repeat_alert(alerted: Set<Seq<char>>, d: DeviceBattery, threshold: u8)
    requires
        alerted.contains(d.id@),
    ensures
        !alert_step(alerted, d, threshold).1,
{
}

/// A device that charges (even while offline) or is online above the
/// threshold is re-armed: its id leaves the alerted set.
pub proof fn law_recovery_rearms(alerted: Set<Seq<char>>, d: DeviceBattery, threshold: u8)
    requires
        is_recovered(d, threshold),
    ensures
        !alert_step(alerted, d, threshold).0.contains(d.id@),
        !alert_step(alerted, d, threshold).1,
{
}

/// A device seen offline or without a percentage, and not charging, neither
/// re-arms nor is notified: one discharge cycle goes on across such sweeps.
pub proof fn law_unknown_state_keeps_alert(alerted: Set<Seq<char>>, d: DeviceBattery, threshold: u8)
    requires
        !d.online || d.percentage is None,
        !d.charging,
    ensures
        alert_step(alerted, d, threshold).0 == alerted,
        !alert_step(alerted, d, threshold).1,
{
}

/// A device that turns low while armed is notified, and is then alerted.
pub proof fn law_first_low_reading_alerts(alerted: Set<Seq<char>>, d: DeviceBattery, threshold: u8)
    requires
        is_low(d, threshold),
        !alerted.contains(d.id@),
    ensures
        alert_step(alerted, d, threshold).1,
        alert_step(alerted, d, threshold).0.contains(d.id@),
{
}

/// The first source's list leads the merged list unchanged and in order:
/// only the entries of later sources are checked against what is already
/// there, so two identical devices of the first source both stay. With a
/// single source the merged list is that source's list.
pub proof fn law_merge_all_keeps_first_source(results: Seq<Seq<DeviceBattery>>)
    requires
        results.len() >= 1,
    ensures
        merge_all_spec(results).len() >= results[0].len(),
        merge_all_spec(results).subrange(0, results[0].len() as int) == results[0],
        results.len() == 1 ==> merge_all_spec(results) == results[0],
    decreases results.len(),
{
    if results.len() > 1 {
        let init = results.drop_last();
        law_merge_all_keeps_first_source(init);
        let acc = merge_all_spec(init);
        law_merge_keeps_primary(acc, results.last());
        let m = merge_spec(acc, results.last());
        assert(init[0] == results[0]);
        assert(m.subrange(0, results[0].len() as int) =~= m.subrange(0, acc.len() as int).subrange(
            0,
            results[0].len() as int,
        ));
        assert(acc.subrange(0, results[0].len() as int) == results[0]);
    }
}

} // verus!
