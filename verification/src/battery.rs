//! The battery state shared by all sources, and the merge of a fallback source
//! into a primary one.

use vstd::prelude::*;
use vstd::string::StrSliceExecFns;

verus! {

/// Normalized battery state of one device.
#[derive(Debug, Clone)]
pub struct DeviceBattery {
    /// Identifier, stable per source, used for merging and deduplication.
    pub id: String,
    pub name: String,
    pub device_type: String,
    /// None when the device reports no percentage or is offline.
    pub percentage: Option<u8>,
    pub charging: bool,
    /// False when the device is paired but asleep or unreachable.
    pub online: bool,
    pub source: &'static str,
}

/// The contents of a device entry as character sequences.
pub struct EntryView {
    pub id: Seq<char>,
    pub name: Seq<char>,
    pub device_type: Seq<char>,
    pub percentage: Option<u8>,
    pub charging: bool,
    pub online: bool,
    pub source: Seq<char>,
}

impl View for DeviceBattery {
    type V = EntryView;

    open spec fn view(&self) -> EntryView {
        EntryView {
            id: self.id@,
            name: self.name@,
            device_type: self.device_type@,
            percentage: self.percentage,
            charging: self.charging,
            online: self.online,
            source: self.source@,
        }
    }
}

/// The views of a list of entries.
pub open spec fn entry_views(devices: Seq<DeviceBattery>) -> Seq<EntryView> {
    Seq::new(devices.len(), |i: int| devices[i]@)
}

/// A battery source; one call of `poll` is one sweep over its devices.
pub trait BatterySource {
    fn name(&self) -> &'static str;

    fn poll(&mut self) -> Vec<DeviceBattery>;
}

pub open spec fn is_ascii_alnum(c: char) -> bool {
    ('0' <= c && c <= '9') || ('a' <= c && c <= 'z') || ('A' <= c && c <= 'Z')
}

pub open spec fn ascii_lower(c: char) -> char {
    if 'A' <= c && c <= 'Z' {
        ((c as u32) + 32) as char
    } else {
        c
    }
}

/// The pieces of `s` between non-alphanumeric characters (empty ones
/// included), lowercased.
pub open spec fn runs(s: Seq<char>) -> Seq<Seq<char>>
    decreases s.len(),
{
    if s.len() == 0 {
        seq![Seq::<char>::empty()]
    } else {
        let r = runs(s.drop_last());
        let c = s.last();
        if is_ascii_alnum(c) {
            r.update(r.len() - 1, r.last().push(ascii_lower(c)))
        } else {
            r.push(Seq::<char>::empty())
        }
    }
}

/// Words that say nothing about which device a name denotes.
pub open spec fn is_noise(t: Seq<char>) -> bool {
    ||| t == "wireless"@
    ||| t == "wired"@
    ||| t == "gaming"@
    ||| t == "mouse"@
    ||| t == "keyboard"@
    ||| t == "headset"@
}

pub open spec fn keep_token(t: Seq<char>) -> bool {
    t.len() > 0 && !is_noise(t)
}

/// The lowercase alphanumeric words of a device name, without noise words.
pub open spec fn tokens(s: Seq<char>) -> Seq<Seq<char>> {
    runs(s).filter(|t: Seq<char>| keep_token(t))
}

/// The character sequences of a vector of words.
pub open spec fn words(v: Seq<Vec<char>>) -> Seq<Seq<char>> {
    Seq::new(v.len(), |i: int| v[i]@)
}

/// Every token of `small` occurs in `big`.
pub open spec fn covered(small: Seq<Seq<char>>, big: Seq<Seq<char>>) -> bool {
    forall|i: int| 0 <= i < small.len() ==> big.contains(#[trigger] small[i])
}

/// Device types that do not rule out one device: equal, or one of them generic.
pub open spec fn types_compatible(a: Seq<char>, b: Seq<char>) -> bool {
    a == b || a == "device"@ || b == "device"@
}

/// Two entries denote one device when their types are compatible, both names
/// have tokens, and the tokens of the name with fewer tokens all occur in the
/// other name.
pub open spec fn same_device_spec(a: DeviceBattery, b: DeviceBattery) -> bool {
    let ta = tokens(a.name@);
    let tb = tokens(b.name@);
    &&& types_compatible(a.device_type@, b.device_type@)
    &&& ta.len() > 0
    &&& tb.len() > 0
    &&& if ta.len() <= tb.len() {
        covered(ta, tb)
    } else {
        covered(tb, ta)
    }
}

fn ascii_alnum(c: char) -> (r: bool)
    ensures
        r == is_ascii_alnum(c),
{
    ('0' <= c && c <= '9') || ('a' <= c && c <= 'z') || ('A' <= c && c <= 'Z')
}

fn lower(c: char) -> (r: char)
    ensures
        r == ascii_lower(c),
{
    if 'A' <= c && c <= 'Z' {
        let b: u8 = c as u8;
        ((b + 32) as char)
    } else {
        c
    }
}

fn chars_eq_str(t: &Vec<char>, s: &str) -> (r: bool)
    ensures
        r == (t@ == s@),
{
    let n = s.unicode_len();
    if t.len() != n {
        return false;
    }
    let mut i: usize = 0;
    while i < n
        invariant
            n == s@.len(),
            n == t@.len(),
            i <= n,
            forall|j: int| 0 <= j < i ==> t@[j] == s@[j],
        decreases n - i,
    {
        if t[i] != s.get_char(i) {
            return false;
        }
        i = i + 1;
    }
    assert(t@ =~= s@);
    true
}

fn noise_word(t: &Vec<char>) -> (r: bool)
    ensures
        r == is_noise(t@),
{
    chars_eq_str(t, "wireless") || chars_eq_str(t, "wired") || chars_eq_str(t, "gaming")
        || chars_eq_str(t, "mouse") || chars_eq_str(t, "keyboard") || chars_eq_str(t, "headset")
}

fn kept(t: &Vec<char>) -> (r: bool)
    ensures
        r == keep_token(t@),
{
    t.len() > 0 && !noise_word(t)
}

/// Split a device name into its tokens.
pub fn name_tokens(s: &str) -> (r: Vec<Vec<char>>)
    ensures
        words(r@) == tokens(s@),
{
    let n = s.unicode_len();
    let mut out: Vec<Vec<char>> = Vec::new();
    let mut cur: Vec<char> = Vec::new();
    let ghost mut done: Seq<Seq<char>> = seq![];
    let mut i: usize = 0;
    assert(s@.take(0) =~= Seq::<char>::empty());
    assert(runs(Seq::<char>::empty()) =~= done.push(cur@));
    proof {
        reveal(Seq::filter);
    }
    assert(words(out@) =~= done.filter(|t: Seq<char>| keep_token(t)));
    while i < n
        invariant
            n == s@.len(),
            i <= n,
            runs(s@.take(i as int)) == done.push(cur@),
            words(out@) == done.filter(|t: Seq<char>| keep_token(t)),
        decreases n - i,
    {
        let c = s.get_char(i);
        assert(s@.take(i + 1).drop_last() =~= s@.take(i as int));
        assert(s@.take(i + 1).last() == c);
        if ascii_alnum(c) {
            let lc = lower(c);
            cur.push(lc);
            assert(done.push(cur@) =~= runs(s@.take(i as int)).update(
                runs(s@.take(i as int)).len() - 1,
                runs(s@.take(i as int)).last().push(lc),
            ));
        } else {
            let ghost finished = cur@;
            proof {
                done.lemma_filter_push(finished, |t: Seq<char>| keep_token(t));
            }
            if kept(&cur) {
                let ghost before = words(out@);
                out.push(cur);
                assert(words(out@) =~= before.push(finished));
            }
            cur = Vec::new();
            proof {
                done = done.push(finished);
            }
            assert(runs(s@.take(i + 1)) =~= done.push(cur@));
        }
        i = i + 1;
    }
    let ghost finished = cur@;
    proof {
        done.lemma_filter_push(finished, |t: Seq<char>| keep_token(t));
        assert(s@.take(n as int) =~= s@);
    }
    if kept(&cur) {
        let ghost before = words(out@);
        out.push(cur);
        assert(words(out@) =~= before.push(finished));
    }
    out
}

fn chars_eq(a: &Vec<char>, b: &Vec<char>) -> (r: bool)
    ensures
        r == (a@ == b@),
{
    if a.len() != b.len() {
        return false;
    }
    let mut i: usize = 0;
    while i < a.len()
        invariant
            a@.len() == b@.len(),
            i <= a@.len(),
            forall|j: int| 0 <= j < i ==> a@[j] == b@[j],
        decreases a@.len() - i,
    {
        if a[i] != b[i] {
            return false;
        }
        i = i + 1;
    }
    assert(a@ =~= b@);
    true
}

fn has_token(big: &Vec<Vec<char>>, t: &Vec<char>) -> (r: bool)
    ensures
        r == words(big@).contains(t@),
{
    let mut i: usize = 0;
    while i < big.len()
        invariant
            i <= big@.len(),
            forall|j: int| 0 <= j < i ==> words(big@)[j] != t@,
        decreases big@.len() - i,
    {
        if chars_eq(&big[i], t) {
            assert(words(big@)[i as int] == t@);
            return true;
        }
        i = i + 1;
    }
    false
}

fn all_covered(small: &Vec<Vec<char>>, big: &Vec<Vec<char>>) -> (r: bool)
    ensures
        r == covered(words(small@), words(big@)),
{
    let mut i: usize = 0;
    while i < small.len()
        invariant
            i <= small@.len(),
            forall|j: int| 0 <= j < i ==> words(big@).contains(#[trigger] words(small@)[j]),
        decreases small@.len() - i,
    {
        if !has_token(big, &small[i]) {
            assert(!words(big@).contains(words(small@)[i as int]));
            return false;
        }
        i = i + 1;
    }
    true
}

/// Whether two entries of different sources denote the same physical device.
pub fn same_device(a: &DeviceBattery, b: &DeviceBattery) -> (r: bool)
    ensures
        r == same_device_spec(*a, *b),
{
    let compatible = crate::text::same_chars(a.device_type.as_str(), b.device_type.as_str())
        || crate::text::same_chars(a.device_type.as_str(), "device")
        || crate::text::same_chars(b.device_type.as_str(), "device");
    if !compatible {
        return false;
    }
    let ta = name_tokens(a.name.as_str());
    let tb = name_tokens(b.name.as_str());
    if ta.len() == 0 || tb.len() == 0 {
        return false;
    }
    if ta.len() <= tb.len() {
        all_covered(&ta, &tb)
    } else {
        all_covered(&tb, &ta)
    }
}

/// Some entry of `acc` denotes the same device as `d`.
pub open spec fn known_in(acc: Seq<DeviceBattery>, d: DeviceBattery) -> bool {
    exists|i: int| 0 <= i < acc.len() && same_device_spec(#[trigger] acc[i], d)
}

/// The fallback entries, in order, each appended unless an entry already in
/// the result (primary or an earlier appended one) denotes the same device.
pub open spec fn merge_spec(acc: Seq<DeviceBattery>, fallback: Seq<DeviceBattery>) -> Seq<
    DeviceBattery,
>
    decreases fallback.len(),
{
    if fallback.len() == 0 {
        acc
    } else {
        let d = fallback[0];
        let next = if known_in(acc, d) {
            acc
        } else {
            acc.push(d)
        };
        merge_spec(next, fallback.drop_first())
    }
}

fn known(acc: &Vec<DeviceBattery>, d: &DeviceBattery) -> (r: bool)
    ensures
        r == known_in(acc@, *d),
{
    let mut i: usize = 0;
    while i < acc.len()
        invariant
            i <= acc@.len(),
            forall|j: int| 0 <= j < i ==> !same_device_spec(#[trigger] acc@[j], *d),
        decreases acc@.len() - i,
    {
        if same_device(&acc[i], d) {
            return true;
        }
        i = i + 1;
    }
    false
}

/// Merge a fallback source into the primary result; on a name overlap the
/// primary entry wins.
pub fn merge(primary: Vec<DeviceBattery>, fallback: Vec<DeviceBattery>) -> (r: Vec<DeviceBattery>)
    ensures
        r@ == merge_spec(primary@, fallback@),
{
    let mut out = primary;
    let mut rest = fallback;
    while rest.len() > 0
        invariant
            merge_spec(primary@, fallback@) == merge_spec(out@, rest@),
        decreases rest@.len(),
    {
        let ghost before = rest@;
        let dev = rest.remove(0);
        assert(before.drop_first() =~= rest@);
        if !known(&out, &dev) {
            out.push(dev);
        }
    }
    out
}

/// The result of a merge extends the entries it starts from.
proof fn lemma_merge_extends(acc: Seq<DeviceBattery>, fallback: Seq<DeviceBattery>)
    ensures
        merge_spec(acc, fallback).len() >= acc.len(),
        merge_spec(acc, fallback).subrange(0, acc.len() as int) == acc,
    decreases fallback.len(),
{
    if fallback.len() > 0 {
        let d = fallback[0];
        let next = if known_in(acc, d) {
            acc
        } else {
            acc.push(d)
        };
        lemma_merge_extends(next, fallback.drop_first());
        let r = merge_spec(next, fallback.drop_first());
        assert(r.subrange(0, acc.len() as int) =~= r.subrange(0, next.len() as int).subrange(
            0,
            acc.len() as int,
        ));
    }
}

/// The primary entries come first in the merged list, unchanged and in order:
/// on overlap the primary source wins.
pub proof fn law_merge_keeps_primary(primary: Seq<DeviceBattery>, fallback: Seq<DeviceBattery>)
    ensures
        merge_spec(primary, fallback).len() >= primary.len(),
        merge_spec(primary, fallback).subrange(0, primary.len() as int) == primary,
{
    lemma_merge_extends(primary, fallback);
}

/// Each fallback entry either appears in the merged list or is represented by
/// an entry of it that denotes the same device.
pub proof fn law_merge_accounts_for_fallback(
    primary: Seq<DeviceBattery>,
    fallback: Seq<DeviceBattery>,
    i: int,
)
    requires
        0 <= i < fallback.len(),
    ensures
        merge_spec(primary, fallback).contains(fallback[i]) || known_in(
            merge_spec(primary, fallback),
            fallback[i],
        ),
    decreases fallback.len(),
{
    let d = fallback[0];
    let next = if known_in(primary, d) {
        primary
    } else {
        primary.push(d)
    };
    let r = merge_spec(primary, fallback);
    assert(r == merge_spec(next, fallback.drop_first()));
    if i == 0 {
        lemma_merge_extends(next, fallback.drop_first());
        if known_in(primary, d) {
            let k = choose|k: int| 0 <= k < primary.len() && same_device_spec(#[trigger] primary[k], d);
            assert(r.subrange(0, next.len() as int)[k] == r[k]);
            assert(same_device_spec(r[k], d));
        } else {
            let k = primary.len() as int;
            assert(r.subrange(0, next.len() as int)[k] == r[k]);
            assert(r[k] == d);
        }
    } else {
        law_merge_accounts_for_fallback(next, fallback.drop_first(), i - 1);
        assert(fallback.drop_first()[i - 1] == fallback[i]);
    }
}

/// Every entry of the merged list is a primary or a fallback entry.
pub proof fn law_merge_only_inputs(primary: Seq<DeviceBattery>, fallback: Seq<DeviceBattery>, j: int)
    requires
        0 <= j < merge_spec(primary, fallback).len(),
    ensures
        primary.contains(merge_spec(primary, fallback)[j]) || fallback.contains(
            merge_spec(primary, fallback)[j],
        ),
    decreases fallback.len(),
{
    if fallback.len() == 0 {
        assert(primary[j] == merge_spec(primary, fallback)[j]);
    } else {
        let d = fallback[0];
        let next = if known_in(primary, d) {
            primary
        } else {
            primary.push(d)
        };
        let x = merge_spec(primary, fallback)[j];
        law_merge_only_inputs(next, fallback.drop_first(), j);
        if next.contains(x) {
            let k = choose|k: int| 0 <= k < next.len() && next[k] == x;
            if k < primary.len() {
                assert(primary[k] == x);
            } else {
                assert(fallback[0] == x);
            }
        } else {
            let k = choose|k: int| 0 <= k < fallback.drop_first().len() && fallback.drop_first()[k] == x;
            assert(fallback[k + 1] == x);
        }
    }
}

/// Merging an empty fallback leaves the primary list as it is.
pub proof fn law_merge_empty_fallback(primary: Seq<DeviceBattery>)
    ensures
        merge_spec(primary, Seq::<DeviceBattery>::empty()) == primary,
{
}

/// Entries of clearly different types never denote the same device.
pub proof fn law_different_types_never_merge(a: DeviceBattery, b: DeviceBattery)
    requires
        a.device_type@ != b.device_type@,
        a.device_type@ != "device"@,
        b.device_type@ != "device"@,
    ensures
        !same_device_spec(a, b),
{
}

/// A name made only of generic words (or of no word at all) is no evidence
/// that two entries denote one device.
pub proof fn law_generic_names_never_merge(a: DeviceBattery, b: DeviceBattery)
    requires
        tokens(a.name@).len() == 0,
    ensures
        !same_device_spec(a, b),
        !same_device_spec(b, a),
{
}

/// Between two token lists of one length without repeats, coverage one way
/// gives coverage the other way.
proof fn lemma_covered_swap(x: Seq<Seq<char>>, y: Seq<Seq<char>>)
    requires
        x.no_duplicates(),
        y.no_duplicates(),
        x.len() == y.len(),
        covered(x, y),
    ensures
        covered(y, x),
{
    vstd::seq_lib::seq_to_set_is_finite(x);
    vstd::seq_lib::seq_to_set_is_finite(y);
    x.unique_seq_to_set();
    y.unique_seq_to_set();
    assert(x.to_set().subset_of(y.to_set())) by {
        assert forall|t: Seq<char>| x.to_set().contains(t) implies y.to_set().contains(t) by {
            let i = choose|i: int| 0 <= i < x.len() && x[i] == t;
            assert(y.contains(x[i]));
        }
    }
    vstd::set_lib::lemma_subset_equality(x.to_set(), y.to_set());
    assert forall|j: int| 0 <= j < y.len() implies x.contains(#[trigger] y[j]) by {
        assert(y.to_set().contains(y[j]));
        assert(x.to_set().contains(y[j]));
    }
}

/// Matching is symmetric when neither name repeats a token.
pub proof fn law_same_device_symmetric(a: DeviceBattery, b: DeviceBattery)
    requires
        tokens(a.name@).no_duplicates(),
        tokens(b.name@).no_duplicates(),
    ensures
        same_device_spec(a, b) == same_device_spec(b, a),
{
    let ta = tokens(a.name@);
    let tb = tokens(b.name@);
    if ta.len() == tb.len() {
        if covered(ta, tb) {
            lemma_covered_swap(ta, tb);
        }
        if covered(tb, ta) {
            lemma_covered_swap(tb, ta);
        }
    }
}

/// An entry whose name has a token denotes the same device as itself.
proof fn lemma_same_device_reflexive(d: DeviceBattery)
    requires
        tokens(d.name@).len() > 0,
    ensures
        same_device_spec(d, d),
{
    let t = tokens(d.name@);
    assert forall|i: int| 0 <= i < t.len() implies t.contains(#[trigger] t[i]) by {}
}

/// Merging fallback entries that are all already known changes nothing.
proof fn lemma_merge_known(acc: Seq<DeviceBattery>, fallback: Seq<DeviceBattery>)
    requires
        forall|i: int| 0 <= i < fallback.len() ==> known_in(acc, #[trigger] fallback[i]),
    ensures
        merge_spec(acc, fallback) == acc,
    decreases fallback.len(),
{
    if fallback.len() > 0 {
        assert(known_in(acc, fallback[0]));
        assert forall|i: int| 0 <= i < fallback.drop_first().len() implies known_in(
            acc,
            #[trigger] fallback.drop_first()[i],
        ) by {
            assert(fallback.drop_first()[i] == fallback[i + 1]);
        }
        lemma_merge_known(acc, fallback.drop_first());
    }
}

/// Merging the same fallback list a second time adds nothing, when every
/// fallback name has a token.
pub proof fn law_merge_twice_adds_nothing(primary: Seq<DeviceBattery>, fallback: Seq<DeviceBattery>)
    requires
        forall|i: int| 0 <= i < fallback.len() ==> tokens((#[trigger] fallback[i]).name@).len() > 0,
    ensures
        merge_spec(merge_spec(primary, fallback), fallback) == merge_spec(primary, fallback),
{
    let r = merge_spec(primary, fallback);
    assert forall|i: int| 0 <= i < fallback.len() implies known_in(r, #[trigger] fallback[i]) by {
        law_merge_accounts_for_fallback(primary, fallback, i);
        if r.contains(fallback[i]) {
            let k = choose|k: int| 0 <= k < r.len() && r[k] == fallback[i];
            lemma_same_device_reflexive(fallback[i]);
            assert(same_device_spec(r[k], fallback[i]));
        }
    }
    lemma_merge_known(r, fallback);
}

} // verus!
