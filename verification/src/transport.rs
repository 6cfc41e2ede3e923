//! The decisions of the HID transport: which HID collections belong to a
//! Logitech HID++ device, how collections group into physical devices, which
//! channel a request goes out on, and what an incoming report answers.

use vstd::prelude::*;
use vstd::slice::slice_to_vec;
use vstd::utf8::is_ascii_chars;

use crate::battery::ascii_lower;

use crate::proto::{class_of, from_requested_device, is_hidpp_report, is_long_form, match_reply, reply_class, to_long, Reply, ReplyClass};

verus! {

/// Failure of one request/reply transaction.
#[derive(Debug)]
pub enum RpcError {
    /// HID++ 1.0 error reply (0x8F); for a sleeping device the receiver
    /// answers 0x09 resource error, 0x08 unknown device or 0x04 connect fail.
    Hidpp10(u8),
    /// HID++ 2.0 error reply (sub id 0xFF).
    Hidpp20(u8),
    /// No matching reply before the deadline (device asleep or absent).
    Timeout,
    /// The HID layer failed; the text is its error message.
    Io(String),
}

/// Errors meaning "paired but unreachable right now".
pub open spec fn offline_error(e: RpcError) -> bool {
    match e {
        RpcError::Timeout => true,
        RpcError::Hidpp10(code) => code == 0x04 || code == 0x08 || code == 0x09,
        _ => false,
    }
}

impl RpcError {
    /// Whether the error means "paired but unreachable right now".
    pub fn is_offline(&self) -> (r: bool)
        ensures
            r == offline_error(*self),
    {
        match self {
            RpcError::Timeout => true,
            RpcError::Hidpp10(code) => *code == 0x04 || *code == 0x08 || *code == 0x09,
            _ => false,
        }
    }
}

/// Logitech's USB vendor id.
pub const LOGITECH_VID: u16 = 0x046D;

/// The two HID++ channels of a device: short (7-byte) and long (20-byte) reports.
#[derive(Debug, Clone, Copy, PartialEq, Eq, Structural)]
pub enum Channel {
    Short,
    Long,
}

/// The HID++ channel a HID collection serves: Logitech vendor id and a
/// vendor-defined usage page (0xFFxx); usage 0x01 is the short channel,
/// 0x02 or 0x0202 the long one.
pub open spec fn channel_spec(vendor_id: u16, usage_page: u16, usage: u16) -> Option<Channel> {
    if vendor_id != LOGITECH_VID || usage_page & 0xFF00 != 0xFF00 {
        None
    } else if usage == 0x0001 {
        Some(Channel::Short)
    } else if usage == 0x0002 || usage == 0x0202 {
        Some(Channel::Long)
    } else {
        None
    }
}

/// Which HID++ channel, if any, a HID collection with these descriptor values serves.
pub fn hidpp_channel(vendor_id: u16, usage_page: u16, usage: u16) -> (r: Option<Channel>)
    ensures
        r == channel_spec(vendor_id, usage_page, usage),
{
    if vendor_id != LOGITECH_VID || usage_page & 0xFF00 != 0xFF00 {
        return None;
    }
    if usage == 0x0001 {
        Some(Channel::Short)
    } else if usage == 0x0002 || usage == 0x0202 {
        Some(Channel::Long)
    } else {
        None
    }
}

/// An opened HID collection: the group key of its path, the product string
/// of its descriptor, the channel it serves and its handle.
pub struct OpenedCollection<H> {
    pub key: String,
    pub product: String,
    pub channel: Channel,
    pub handle: H,
}

/// One physical device: the opened collections that share a group key.
pub struct PhysicalGroup<H> {
    pub key: String,
    pub product: String,
    pub short: Option<H>,
    pub long: Option<H>,
}

/// Index of the first group with key `key`, or -1.
pub open spec fn first_group<H>(groups: Seq<PhysicalGroup<H>>, key: Seq<char>) -> int
    decreases groups.len(),
{
    if groups.len() == 0 {
        -1
    } else {
        let f = first_group(groups.drop_last(), key);
        if f >= 0 {
            f
        } else if groups.last().key@ == key {
            groups.len() - 1
        } else {
            -1
        }
    }
}

/// `g` with handle `h` on `channel`, unless that channel already has one.
pub open spec fn attach<H>(g: PhysicalGroup<H>, channel: Channel, h: H) -> PhysicalGroup<H> {
    match channel {
        Channel::Short => PhysicalGroup { short: if g.short is Some { g.short } else { Some(h) }, ..g },
        Channel::Long => PhysicalGroup { long: if g.long is Some { g.long } else { Some(h) }, ..g },
    }
}

/// One collection added: it joins the first group of its key, or opens a new
/// group named by its product string; the first handle per channel wins.
pub open spec fn group_step<H>(groups: Seq<PhysicalGroup<H>>, c: OpenedCollection<H>) -> Seq<
    PhysicalGroup<H>,
> {
    let i = first_group(groups, c.key@);
    if i < 0 {
        groups.push(
            attach(PhysicalGroup { key: c.key, product: c.product, short: None, long: None }, c.channel, c.handle),
        )
    } else {
        groups.update(i, attach(groups[i], c.channel, c.handle))
    }
}

/// All collections added in order.
pub open spec fn group_spec<H>(collections: Seq<OpenedCollection<H>>) -> Seq<PhysicalGroup<H>>
    decreases collections.len(),
{
    if collections.len() == 0 {
        Seq::<PhysicalGroup<H>>::empty()
    } else {
        group_step(group_spec(collections.drop_last()), collections.last())
    }
}

proof fn lemma_first_group_bounds<H>(groups: Seq<PhysicalGroup<H>>, key: Seq<char>)
    ensures
        first_group(groups, key) < groups.len(),
        first_group(groups, key) >= 0 ==> groups[first_group(groups, key)].key@ == key,
    decreases groups.len(),
{
    if groups.len() > 0 {
        lemma_first_group_bounds(groups.drop_last(), key);
        if first_group(groups.drop_last(), key) >= 0 {
            assert(groups.drop_last()[first_group(groups, key)] == groups[first_group(groups, key)]);
        }
    }
}

proof fn lemma_first_group_prefix<H>(groups: Seq<PhysicalGroup<H>>, key: Seq<char>, n: int)
    requires
        0 <= n <= groups.len(),
        first_group(groups.take(n), key) >= 0,
    ensures
        first_group(groups, key) == first_group(groups.take(n), key),
    decreases groups.len(),
{
    if n < groups.len() {
        assert(groups.drop_last().take(n) =~= groups.take(n));
        lemma_first_group_prefix(groups.drop_last(), key, n);
    } else {
        assert(groups.take(n) =~= groups);
    }
}

fn find_group<H>(groups: &Vec<PhysicalGroup<H>>, key: &String) -> (r: Option<usize>)
    ensures
        r is None ==> first_group(groups@, key@) < 0,
        r matches Some(i) ==> first_group(groups@, key@) == i && i < groups@.len(),
{
    let mut i: usize = 0;
    while i < groups.len()
        invariant
            i <= groups@.len(),
            first_group(groups@.take(i as int), key@) < 0,
        decreases groups@.len() - i,
    {
        assert(groups@.take(i + 1).drop_last() =~= groups@.take(i as int));
        if groups[i].key == *key {
            proof {
                lemma_first_group_prefix(groups@, key@, i + 1);
            }
            return Some(i);
        }
        i = i + 1;
    }
    assert(groups@.take(i as int) =~= groups@);
    None
}

fn attach_handle<H>(g: &mut PhysicalGroup<H>, channel: Channel, h: H)
    ensures
        *final(g) == attach(*old(g), channel, h),
{
    match channel {
        Channel::Short => {
            if g.short.is_none() {
                g.short = Some(h);
            }
        },
        Channel::Long => {
            if g.long.is_none() {
                g.long = Some(h);
            }
        },
    }
}

/// Group opened HID collections into physical devices by key.
pub fn group_collections<H>(collections: Vec<OpenedCollection<H>>) -> (r: Vec<PhysicalGroup<H>>)
    ensures
        r@ == group_spec(collections@),
{
    let mut groups: Vec<PhysicalGroup<H>> = Vec::new();
    let mut rest = collections;
    let ghost all = collections@;
    assert(all.take(0) =~= Seq::<OpenedCollection<H>>::empty());
    assert(all.skip(0) =~= all);
    while rest.len() > 0
        invariant
            rest@.len() <= all.len(),
            rest@ == all.skip(all.len() - rest@.len()),
            groups@ == group_spec(all.take(all.len() - rest@.len())),
        decreases rest@.len(),
    {
        let ghost k = all.len() - rest@.len();
        let c = rest.remove(0);
        assert(all.skip(k + 1) =~= rest@);
        assert(all.take(k + 1).drop_last() =~= all.take(k));
        assert(all.take(k + 1).last() == c);
        let OpenedCollection { key, product, channel, handle } = c;
        match find_group(&groups, &key) {
            None => {
                let mut g = PhysicalGroup { key, product, short: None, long: None };
                attach_handle(&mut g, channel, handle);
                groups.push(g);
            },
            Some(i) => {
                proof {
                    lemma_first_group_bounds(groups@, key@);
                }
                let ghost before = groups@;
                let mut g = groups.remove(i);
                attach_handle(&mut g, channel, handle);
                groups.insert(i, g);
                assert(groups@ =~= before.update(i as int, attach(before[i as int], channel, handle)));
            },
        }
    }
    assert(all.take(all.len() as int) =~= all);
    groups
}

/// Every group has a handle on at least one channel, and no two groups share a key.
pub open spec fn groups_ok<H>(groups: Seq<PhysicalGroup<H>>) -> bool {
    &&& forall|i: int| 0 <= i < groups.len() ==> (#[trigger] groups[i]).short is Some || groups[i].long is Some
    &&& forall|i: int, j: int|
        0 <= i < j < groups.len() ==> (#[trigger] groups[i]).key@ != (#[trigger] groups[j]).key@
}

/// Grouping yields one group per key, each holding at least one opened
/// channel, so none is dropped as empty.
pub proof fn law_groups_have_channels_and_distinct_keys<H>(collections: Seq<OpenedCollection<H>>)
    ensures
        groups_ok(group_spec(collections)),
    decreases collections.len(),
{
    if collections.len() > 0 {
        let prev = group_spec(collections.drop_last());
        let c = collections.last();
        law_groups_have_channels_and_distinct_keys(collections.drop_last());
        lemma_first_group_bounds(prev, c.key@);
        lemma_first_group_none(prev, c.key@);
        let r = group_spec(collections);
        assert forall|i: int| 0 <= i < r.len() implies (#[trigger] r[i]).short is Some || r[i].long is Some by {
            if i < prev.len() && r[i] == prev[i] {
            }
        }
        assert forall|i: int, j: int| 0 <= i < j < r.len() implies (#[trigger] r[i]).key@ != (#[trigger] r[j]).key@ by {
            if j == prev.len() {
                assert(r[i] == prev[i]);
            } else {
                assert(r[i].key == prev[i].key);
                assert(r[j].key == prev[j].key);
            }
        }
    }
}

proof fn lemma_first_group_none<H>(groups: Seq<PhysicalGroup<H>>, key: Seq<char>)
    ensures
        first_group(groups, key) < 0 ==> forall|k: int|
            0 <= k < groups.len() ==> (#[trigger] groups[k]).key@ != key,
    decreases groups.len(),
{
    if groups.len() > 0 {
        lemma_first_group_none(groups.drop_last(), key);
        if first_group(groups, key) < 0 {
            assert forall|k: int| 0 <= k < groups.len() implies (#[trigger] groups[k]).key@ != key by {
                if k < groups.len() - 1 {
                    assert(groups.drop_last()[k] == groups[k]);
                }
            }
        }
    }
}

/// The report a request goes out as on a device: the short request on the
/// short channel, or its long form on a long-only device.
pub enum Wire {
    Short([u8; 7]),
    Long([u8; 20]),
}

/// Choose the channel and report for a request; None when the device has no
/// channel open (the request then times out).
pub fn wire_request<H>(g: &PhysicalGroup<H>, req: &[u8; 7]) -> (w: Option<Wire>)
    ensures
        g.short is Some ==> (w matches Some(Wire::Short(m)) && m@ == req@),
        g.short is None && g.long is Some ==> (w matches Some(Wire::Long(m)) && is_long_form(req@, m@)),
        g.short is None && g.long is None ==> w is None,
{
    if g.short.is_some() {
        Some(Wire::Short(*req))
    } else if g.long.is_some() {
        Some(Wire::Long(to_long(req)))
    } else {
        None
    }
}

/// What a received report means for the request sent as `wire`: the reply
/// parameters, an error, or None for unrelated traffic to skip.
pub fn report_outcome(wire: &[u8], report: &[u8]) -> (r: Option<Result<Vec<u8>, RpcError>>)
    requires
        is_hidpp_report(report@) ==> wire@.len() >= 2,
        is_hidpp_report(report@) && from_requested_device(wire@, report@) ==> wire@.len() >= 4,
    ensures
        match reply_class(wire@, report@) {
            ReplyClass::Answer => r matches Some(Ok(p)) && p@ == report@.subrange(
                4,
                report@.len() as int,
            ),
            ReplyClass::Err10(c) => r matches Some(Err(RpcError::Hidpp10(e))) && e == c,
            ReplyClass::Err20(c) => r matches Some(Err(RpcError::Hidpp20(e))) && e == c,
            ReplyClass::NoMatch => r is None,
        },
{
    match match_reply(wire, report) {
        Reply::Answer(params) => Some(Ok(slice_to_vec(params))),
        Reply::Err10(code) => Some(Err(RpcError::Hidpp10(code))),
        Reply::Err20(code) => Some(Err(RpcError::Hidpp20(code))),
        Reply::NoMatch => None,
    }
}

#[verifier::external_type_specification]
#[verifier::external_body]
pub struct ExRegex(regex_lite::Regex);

/// Whether `regex_lite::Regex::new` accepts a pattern.
pub uninterp spec fn regex_compiles(pattern: Seq<char>) -> bool;

/// What `regex_lite::Regex::replace_all` yields for a pattern, a haystack and
/// a replacement string.
pub uninterp spec fn regex_replace_all(
    pattern: Seq<char>,
    haystack: Seq<char>,
    replacement: Seq<char>,
) -> Seq<char>;

/// What `str::to_lowercase` yields.
pub uninterp spec fn unicode_lowercase(s: Seq<char>) -> Seq<char>;

/// A compiled regular expression and the pattern it was compiled from.
pub struct Pattern {
    re: regex_lite::Regex,
    source: String,
}

impl Pattern {
    pub closed spec fn pattern(&self) -> Seq<char> {
        self.source@
    }
}

/// `regex_lite::Regex::new`: compiles `pattern`. Claimed: whether it succeeds
/// depends on the pattern alone, and the compiled value keeps that pattern.
#[verifier::external_body]
fn compile(pattern: &str) -> (r: Option<Pattern>)
    ensures
        r is Some <==> regex_compiles(pattern@),
        r matches Some(p) ==> p.pattern() == pattern@,
{
    match regex_lite::Regex::new(pattern) {
        Ok(re) => Some(Pattern { re, source: pattern.to_string() }),
        Err(_) => None,
    }
}

/// `regex_lite::Regex::replace_all`: replaces every match of the pattern in
/// `haystack` by `replacement`. Claimed: the result depends on the pattern,
/// the haystack and the replacement alone.
#[verifier::external_body]
fn replace_all(p: &Pattern, haystack: &str, replacement: &str) -> (r: String)
    ensures
        r@ == regex_replace_all(p.pattern(), haystack@, replacement@),
{
    p.re.replace_all(haystack, replacement).into_owned()
}

/// `str::to_lowercase`: Unicode lowercase mapping, without locale. Claimed:
/// the result depends on the text alone, and ASCII text is lowercased
/// character by character as ASCII.
#[verifier::external_body]
pub(crate) fn to_lowercase(s: &str) -> (r: String)
    ensures
        r@ == unicode_lowercase(s@),
        is_ascii_chars(s@) ==> r@ == s@.map_values(|c: char| ascii_lower(c)),
{
    s.to_lowercase()
}

/// The group key of a collection path: lowercase, then the collection part
/// (`&col01`) and the trailing ordinal (`&0000#`) removed, as those are the
/// only parts that differ between the collections of one device.
pub open spec fn group_key_spec(path: Seq<char>) -> Seq<char> {
    regex_replace_all(
        "&\\d{4}#"@,
        regex_replace_all("&?col\\d+"@, unicode_lowercase(path), ""@),
        "#"@,
    )
}

/// The group key of a Windows HID collection path; None only when one of the
/// two fixed patterns is refused by the regex compiler.
pub fn group_key(path: &str) -> (r: Option<String>)
    ensures
        r is Some <==> regex_compiles("&?col\\d+"@) && regex_compiles("&\\d{4}#"@),
        r matches Some(k) ==> k@ == group_key_spec(path@),
{
    let lower = to_lowercase(path);
    let collection = compile("&?col\\d+")?;
    let without_collection = replace_all(&collection, lower.as_str(), "");
    let ordinal = compile("&\\d{4}#")?;
    Some(replace_all(&ordinal, without_collection.as_str(), "#"))
}

} // verus!
