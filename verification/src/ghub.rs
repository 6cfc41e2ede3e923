//! The G HUB fallback source: reading the local agent's JSON messages, which
//! device descriptions are battery devices, the entry each one becomes, and
//! when a stream of agent messages answers a request.

use vstd::prelude::*;
use vstd::string::StringExecFns;

use crate::battery::{DeviceBattery, EntryView};
use crate::text::{decimal_nat, push_usize};
use crate::transport::{to_lowercase, unicode_lowercase};

verus! {

/// Source tag of the entries built from G HUB.
pub const SOURCE: &'static str = "ghub";

/// Messages read while waiting for the answer to one request.
pub const MAX_FRAMES: u8 = 32;

#[verifier::external_type_specification]
#[verifier::external_body]
pub struct ExJsonValue(serde_json::Value);

/// Whether `serde_json::from_str::<Value>` accepts a text.
pub uninterp spec fn json_parses(text: Seq<char>) -> bool;

/// What `serde_json::Value::pointer` finds at a JSON pointer in the value
/// parsed from a text.
pub uninterp spec fn json_item(text: Seq<char>, pointer: Seq<char>) -> JsonItemView;

/// A parsed JSON text.
pub struct JsonDoc {
    value: serde_json::Value,
    text: String,
}

impl JsonDoc {
    pub closed spec fn text(&self) -> Seq<char> {
        self.text@
    }
}

/// The kind of value found at a JSON pointer, with strings, booleans and
/// array lengths as plain values.
pub enum JsonItem {
    Missing,
    Null,
    Bool(bool),
    Number,
    Str(String),
    Array(usize),
    Object,
}

pub enum JsonItemView {
    Missing,
    Null,
    Bool(bool),
    Number,
    Str(Seq<char>),
    Array(usize),
    Object,
}

impl View for JsonItem {
    type V = JsonItemView;

    open spec fn view(&self) -> JsonItemView {
        match self {
            JsonItem::Missing => JsonItemView::Missing,
            JsonItem::Null => JsonItemView::Null,
            JsonItem::Bool(b) => JsonItemView::Bool(*b),
            JsonItem::Number => JsonItemView::Number,
            JsonItem::Str(s) => JsonItemView::Str(s@),
            JsonItem::Array(n) => JsonItemView::Array(*n),
            JsonItem::Object => JsonItemView::Object,
        }
    }
}

/// `serde_json::from_str::<Value>`: parses a JSON text. Claimed: whether it
/// succeeds depends on the text alone, and the parsed value keeps that text.
#[verifier::external_body]
fn parse_json(text: &str) -> (r: Option<JsonDoc>)
    ensures
        r is Some <==> json_parses(text@),
        r matches Some(d) ==> d.text() == text@,
{
    match serde_json::from_str::<serde_json::Value>(text) {
        Ok(value) => Some(JsonDoc { value, text: text.to_string() }),
        Err(_) => None,
    }
}

/// `serde_json::Value::pointer`: the value at a JSON pointer. Claimed: what
/// is found depends on the parsed text and the pointer alone.
#[verifier::external_body]
fn json_at(doc: &JsonDoc, pointer: &str) -> (r: JsonItem)
    ensures
        r@ == json_item(doc.text(), pointer@),
{
    match doc.value.pointer(pointer) {
        None => JsonItem::Missing,
        Some(serde_json::Value::Null) => JsonItem::Null,
        Some(serde_json::Value::Bool(b)) => JsonItem::Bool(*b),
        Some(serde_json::Value::Number(_)) => JsonItem::Number,
        Some(serde_json::Value::String(s)) => JsonItem::Str(s.clone()),
        Some(serde_json::Value::Array(a)) => JsonItem::Array(a.len()),
        Some(serde_json::Value::Object(_)) => JsonItem::Object,
    }
}

/// The string at a pointer, if the value there is a string.
pub open spec fn str_at(text: Seq<char>, pointer: Seq<char>) -> Option<Seq<char>> {
    match json_item(text, pointer) {
        JsonItemView::Str(s) => Some(s),
        _ => None,
    }
}

/// The value at a pointer is `true`.
pub open spec fn true_at(text: Seq<char>, pointer: Seq<char>) -> bool {
    json_item(text, pointer) == JsonItemView::Bool(true)
}

/// The pointer to a field of the `i`-th device description of a device list.
pub open spec fn device_pointer(i: int, field: Seq<char>) -> Seq<char> {
    "/payload/deviceInfos/"@ + decimal_nat(i as nat) + field
}

/// What a device description of `/devices/list` holds, as plain values.
pub struct GhubDeviceInfo {
    /// `capabilities.hasBatteryStatus`, false when absent.
    pub has_battery: bool,
    pub id: Option<String>,
    pub display_name: Option<String>,
    pub device_type: Option<String>,
}

pub struct GhubInfoView {
    pub has_battery: bool,
    pub id: Option<Seq<char>>,
    pub display_name: Option<Seq<char>>,
    pub device_type: Option<Seq<char>>,
}

pub open spec fn opt_view(s: Option<String>) -> Option<Seq<char>> {
    match s {
        Some(t) => Some(t@),
        None => None,
    }
}

impl View for GhubDeviceInfo {
    type V = GhubInfoView;

    open spec fn view(&self) -> GhubInfoView {
        GhubInfoView {
            has_battery: self.has_battery,
            id: opt_view(self.id),
            display_name: opt_view(self.display_name),
            device_type: opt_view(self.device_type),
        }
    }
}

/// The `i`-th device description of a device list message.
pub open spec fn info_at(text: Seq<char>, i: int) -> GhubInfoView {
    GhubInfoView {
        has_battery: true_at(text, device_pointer(i, "/capabilities/hasBatteryStatus"@)),
        id: str_at(text, device_pointer(i, "/id"@)),
        display_name: str_at(text, device_pointer(i, "/extendedDisplayName"@)),
        device_type: str_at(text, device_pointer(i, "/deviceType"@)),
    }
}

/// What the source reads from one agent message: the path it echoes, the
/// device descriptions of a device list, and the charging flag of a battery state.
pub struct AgentMessage {
    pub path: Option<String>,
    pub device_infos: Option<Vec<GhubDeviceInfo>>,
    /// `payload.charging`, false when absent.
    pub charging: bool,
}

pub struct AgentView {
    pub path: Option<Seq<char>>,
    pub device_infos: Option<Seq<GhubInfoView>>,
    pub charging: bool,
}

pub open spec fn infos_view(v: Seq<GhubDeviceInfo>) -> Seq<GhubInfoView> {
    Seq::new(v.len(), |i: int| v[i]@)
}

impl View for AgentMessage {
    type V = AgentView;

    open spec fn view(&self) -> AgentView {
        AgentView {
            path: opt_view(self.path),
            device_infos: match self.device_infos {
                Some(v) => Some(infos_view(v@)),
                None => None,
            },
            charging: self.charging,
        }
    }
}

/// The message a text is: none when it is not JSON; otherwise its `path`
/// string, the descriptions of `payload.deviceInfos` when that is an array,
/// and whether `payload.charging` is true.
pub open spec fn agent_message(text: Seq<char>) -> Option<AgentView> {
    if !json_parses(text) {
        None
    } else {
        Some(
            AgentView {
                path: str_at(text, "/path"@),
                device_infos: match json_item(text, "/payload/deviceInfos"@) {
                    JsonItemView::Array(n) => Some(Seq::new(n as nat, |i: int| info_at(text, i))),
                    _ => None,
                },
                charging: true_at(text, "/payload/charging"@),
            },
        )
    }
}

pub open spec fn message_view(m: Option<AgentMessage>) -> Option<AgentView> {
    match m {
        Some(x) => Some(x@),
        None => None,
    }
}

fn string_at(doc: &JsonDoc, pointer: &str) -> (r: Option<String>)
    ensures
        opt_view(r) == str_at(doc.text(), pointer@),
{
    match json_at(doc, pointer) {
        JsonItem::Str(s) => Some(s),
        _ => None,
    }
}

fn is_true_at(doc: &JsonDoc, pointer: &str) -> (r: bool)
    ensures
        r == true_at(doc.text(), pointer@),
{
    match json_at(doc, pointer) {
        JsonItem::Bool(b) => b,
        _ => false,
    }
}

fn device_field_pointer(i: usize, field: &str) -> (r: String)
    ensures
        r@ == device_pointer(i as int, field@),
{
    let mut p = String::from_str("/payload/deviceInfos/");
    push_usize(&mut p, i);
    p.append(field);
    p
}

fn read_info(doc: &JsonDoc, i: usize) -> (r: GhubDeviceInfo)
    ensures
        r@ == info_at(doc.text(), i as int),
{
    let battery_ptr = device_field_pointer(i, "/capabilities/hasBatteryStatus");
    let id_ptr = device_field_pointer(i, "/id");
    let name_ptr = device_field_pointer(i, "/extendedDisplayName");
    let type_ptr = device_field_pointer(i, "/deviceType");
    GhubDeviceInfo {
        has_battery: is_true_at(doc, battery_ptr.as_str()),
        id: string_at(doc, id_ptr.as_str()),
        display_name: string_at(doc, name_ptr.as_str()),
        device_type: string_at(doc, type_ptr.as_str()),
    }
}

/// Read an agent message from its text.
pub fn parse_agent_message(text: &str) -> (m: Option<AgentMessage>)
    ensures
        message_view(m) == agent_message(text@),
{
    let doc = match parse_json(text) {
        Some(d) => d,
        None => return None,
    };
    let path = string_at(&doc, "/path");
    let device_infos = match json_at(&doc, "/payload/deviceInfos") {
        JsonItem::Array(n) => {
            let mut infos: Vec<GhubDeviceInfo> = Vec::new();
            let mut i: usize = 0;
            while i < n
                invariant
                    i <= n,
                    infos@.len() == i,
                    forall|j: int| 0 <= j < i ==> (#[trigger] infos@[j])@ == info_at(doc.text(), j),
                decreases n - i,
            {
                infos.push(read_info(&doc, i));
                i = i + 1;
            }
            assert(infos_view(infos@) =~= Seq::new(n as nat, |j: int| info_at(text@, j)));
            Some(infos)
        },
        _ => None,
    };
    let charging = is_true_at(&doc, "/payload/charging");
    Some(AgentMessage { path, device_infos, charging })
}

/// A battery device whose state is to be requested.
pub struct GhubTarget {
    pub id: String,
    pub name: String,
    pub device_type: String,
}

/// What to do with one device description.
pub enum InfoAction {
    /// No battery: skip it.
    Skip,
    /// A battery device without an id: the whole device list is unusable.
    Abort,
    /// Request the battery state of this device.
    Query(GhubTarget),
}

/// The action for a description: None to abort, Some(None) to skip,
/// Some(Some((id, name, type))) to query. Non-battery devices are skipped; a
/// battery device without id aborts; otherwise the name is the extended
/// display name (else the id) and the type the lowercased device type (else
/// "device").
pub open spec fn classify_spec(info: GhubInfoView) -> Option<Option<(Seq<char>, Seq<char>, Seq<char>)>> {
    if !info.has_battery {
        Some(None)
    } else {
        match info.id {
            None => None,
            Some(id) => Some(
                Some(
                    (
                        id,
                        match info.display_name {
                            Some(n) => n,
                            None => id,
                        },
                        unicode_lowercase(
                            match info.device_type {
                                Some(t) => t,
                                None => "device"@,
                            },
                        ),
                    ),
                ),
            ),
        }
    }
}

pub open spec fn target_view(t: GhubTarget) -> (Seq<char>, Seq<char>, Seq<char>) {
    (t.id@, t.name@, t.device_type@)
}

pub open spec fn action_view(a: InfoAction) -> Option<Option<(Seq<char>, Seq<char>, Seq<char>)>> {
    match a {
        InfoAction::Skip => Some(None),
        InfoAction::Abort => None,
        InfoAction::Query(t) => Some(Some(target_view(t))),
    }
}

/// Decide what to do with one device description.
pub fn classify_info(info: GhubDeviceInfo) -> (a: InfoAction)
    ensures
        action_view(a) == classify_spec(info@),
{
    if !info.has_battery {
        return InfoAction::Skip;
    }
    let id = match info.id {
        Some(id) => id,
        None => return InfoAction::Abort,
    };
    let name = match info.display_name {
        Some(n) => n,
        None => String::from_str(id.as_str()),
    };
    let device_type = match info.device_type {
        Some(t) => to_lowercase(t.as_str()),
        None => to_lowercase("device"),
    };
    InfoAction::Query(GhubTarget { id, name, device_type })
}

/// The devices of a list to query, in order, or None when a battery device
/// lacks an id (the whole list is then unusable).
pub open spec fn targets_spec(infos: Seq<GhubInfoView>) -> Option<Seq<(Seq<char>, Seq<char>, Seq<char>)>>
    decreases infos.len(),
{
    if infos.len() == 0 {
        Some(Seq::empty())
    } else {
        match (targets_spec(infos.drop_last()), classify_spec(infos.last())) {
            (Some(v), Some(None)) => Some(v),
            (Some(v), Some(Some(t))) => Some(v.push(t)),
            _ => None,
        }
    }
}

proof fn lemma_targets_abort(infos: Seq<GhubInfoView>)
    ensures
        targets_spec(infos) is None <==> exists|i: int|
            0 <= i < infos.len() && classify_spec(#[trigger] infos[i]) is None,
    decreases infos.len(),
{
    if infos.len() > 0 {
        lemma_targets_abort(infos.drop_last());
        if exists|i: int| 0 <= i < infos.drop_last().len() && classify_spec(
            #[trigger] infos.drop_last()[i],
        ) is None {
            let i = choose|i: int| 0 <= i < infos.drop_last().len() && classify_spec(
                #[trigger] infos.drop_last()[i],
            ) is None;
            assert(infos[i] == infos.drop_last()[i]);
        }
        if exists|i: int| 0 <= i < infos.len() && classify_spec(#[trigger] infos[i]) is None {
            let i = choose|i: int| 0 <= i < infos.len() && classify_spec(#[trigger] infos[i]) is None;
            if i < infos.len() - 1 {
                assert(infos.drop_last()[i] == infos[i]);
            }
        }
    }
}

pub open spec fn targets_view(v: Seq<GhubTarget>) -> Seq<(Seq<char>, Seq<char>, Seq<char>)> {
    Seq::new(v.len(), |i: int| target_view(v[i]))
}

/// The devices of a device list to query, in order; None when one battery
/// device has no id, which makes the whole list unusable.
pub fn ghub_targets(infos: Vec<GhubDeviceInfo>) -> (r: Option<Vec<GhubTarget>>)
    ensures
        r is None <==> exists|i: int|
            0 <= i < infos@.len() && classify_spec((#[trigger] infos@[i])@) is None,
        r matches Some(v) ==> Some(targets_view(v@)) == targets_spec(infos_view(infos@)),
{
    let ghost all = infos_view(infos@);
    proof {
        lemma_targets_abort(all);
    }
    assert forall|i: int| 0 <= i < infos@.len() implies all[i] == (#[trigger] infos@[i])@ by {}
    let mut out: Vec<GhubTarget> = Vec::new();
    let mut rest = infos;
    let ghost orig = infos@;
    assert(all.take(0) =~= Seq::<GhubInfoView>::empty());
    assert(targets_view(out@) =~= Seq::<(Seq<char>, Seq<char>, Seq<char>)>::empty());
    while rest.len() > 0
        invariant
            all == infos_view(orig),
            orig == infos@,
            rest@.len() <= orig.len(),
            rest@ == orig.skip(orig.len() - rest@.len()),
            targets_spec(all.take(orig.len() - rest@.len())) == Some(targets_view(out@)),
        decreases rest@.len(),
    {
        let ghost k = orig.len() - rest@.len();
        let info = rest.remove(0);
        assert(orig.skip(k + 1) =~= rest@);
        assert(all.take(k + 1).drop_last() =~= all.take(k));
        assert(all.take(k + 1).last() == info@);
        match classify_info(info) {
            InfoAction::Skip => {},
            InfoAction::Abort => {
                assert(targets_spec(all.take(k + 1)) is None);
                proof {
                    lemma_targets_prefix_none(all, k + 1);
                    lemma_targets_abort(all);
                    let i = choose|i: int| 0 <= i < all.len() && classify_spec(#[trigger] all[i]) is None;
                    assert(all[i] == orig[i]@);
                    assert(classify_spec((orig[i])@) is None);
                }
                return None;
            },
            InfoAction::Query(t) => {
                let ghost before = out@;
                out.push(t);
                assert(targets_view(out@) =~= targets_view(before).push(target_view(t)));
            },
        }
    }
    assert(all.take(orig.len() as int) =~= all);
    Some(out)
}

/// Once a prefix aborts, the whole list does.
proof fn lemma_targets_prefix_none(infos: Seq<GhubInfoView>, n: int)
    requires
        0 <= n <= infos.len(),
        targets_spec(infos.take(n)) is None,
    ensures
        targets_spec(infos) is None,
    decreases infos.len(),
{
    if n < infos.len() {
        assert(infos.drop_last().take(n) =~= infos.take(n));
        lemma_targets_prefix_none(infos.drop_last(), n);
    } else {
        assert(infos.take(n) =~= infos);
    }
}

/// The path of the battery state request of a device.
pub fn battery_state_path(id: &str) -> (p: String)
    ensures
        p@ == "/battery/"@ + id@ + "/state"@,
{
    let mut p = String::from_str("/battery/");
    p.append(id);
    p.append("/state");
    p
}

/// The entry of a battery device: id "ghub:<id>", online exactly when a
/// percentage was reported.
pub open spec fn ghub_entry_spec(
    id: Seq<char>,
    name: Seq<char>,
    device_type: Seq<char>,
    percentage: Option<u8>,
    charging: bool,
) -> EntryView {
    EntryView {
        id: "ghub:"@ + id,
        name: name,
        device_type: device_type,
        percentage: percentage,
        charging: charging,
        online: percentage is Some,
        source: "ghub"@,
    }
}

/// Build the entry of a battery device from its reported state.
pub fn ghub_entry(target: GhubTarget, percentage: Option<u8>, charging: bool) -> (e: DeviceBattery)
    ensures
        e@ == ghub_entry_spec(target.id@, target.name@, target.device_type@, percentage, charging),
        e.name@ == target.name@,
        e.id@ == "ghub:"@ + target.id@,
        e.device_type@ == target.device_type@,
        e.percentage == percentage,
        e.charging == charging,
        e.online == percentage is Some,
{
    let mut id = String::from_str("ghub:");
    id.append(target.id.as_str());
    DeviceBattery {
        id,
        name: target.name,
        device_type: target.device_type,
        percentage,
        charging,
        online: percentage.is_some(),
        source: SOURCE,
    }
}

/// A message received while waiting for an answer.
pub enum Frame {
    /// Not a text message.
    Other,
    /// A text message that is not JSON.
    Malformed,
    /// A JSON message.
    Response(AgentMessage),
}

pub enum FrameView {
    Other,
    Malformed,
    Response(AgentView),
}

impl View for Frame {
    type V = FrameView;

    open spec fn view(&self) -> FrameView {
        match self {
            Frame::Other => FrameView::Other,
            Frame::Malformed => FrameView::Malformed,
            Frame::Response(m) => FrameView::Response(m@),
        }
    }
}

/// The frame a text message is.
pub fn text_frame(text: &str) -> (f: Frame)
    ensures
        f@ == match agent_message(text@) {
            None => FrameView::Malformed,
            Some(m) => FrameView::Response(m),
        },
{
    match parse_agent_message(text) {
        None => Frame::Malformed,
        Some(m) => Frame::Response(m),
    }
}

/// What to do after a message.
#[derive(Debug, Clone, Copy, PartialEq, Eq, Structural)]
pub enum Scan {
    /// The message answers the request: take it.
    Found,
    /// Read the next message.
    Continue,
    /// Give up on the request.
    Stop,
}

pub open spec fn scan_spec(read: u8, frame: FrameView, path: Seq<char>) -> Scan {
    match frame {
        FrameView::Malformed => Scan::Stop,
        FrameView::Response(m) if m.path == Some(path) => Scan::Found,
        _ => if read >= MAX_FRAMES {
            Scan::Stop
        } else {
            Scan::Continue
        },
    }
}

/// Decide on the `read`-th message (counting from 1) received for a request
/// of `path`: a message echoing the path answers it, a malformed one ends the
/// request, and at most `MAX_FRAMES` messages are read.
pub fn scan_frame(read: u8, frame: &Frame, path: &str) -> (s: Scan)
    ensures
        s == scan_spec(read, frame@, path@),
{
    match frame {
        Frame::Malformed => Scan::Stop,
        Frame::Response(m) => {
            let echoes = match &m.path {
                Some(p) => crate::text::same_chars(p.as_str(), path),
                None => false,
            };
            if echoes {
                Scan::Found
            } else if read >= MAX_FRAMES {
                Scan::Stop
            } else {
                Scan::Continue
            }
        },
        Frame::Other => {
            if read >= MAX_FRAMES {
                Scan::Stop
            } else {
                Scan::Continue
            }
        },
    }
}

/// A request gives up after at most `MAX_FRAMES` messages.
pub proof fn law_scan_bounded(read: u8, frame: FrameView, path: Seq<char>)
    requires
        read >= MAX_FRAMES,
    ensures
        scan_spec(read, frame, path) != Scan::Continue,
{
}

/// The entry of a G HUB device carries the device's own name and type, the
/// id "ghub:" followed by the device id, the reported level and charging
/// state, is online exactly when a level was reported, and is tagged "ghub".
pub proof fn law_ghub_entry_fields(
    id: Seq<char>,
    name: Seq<char>,
    device_type: Seq<char>,
    percentage: Option<u8>,
    charging: bool,
)
    ensures
        ({
            let e = ghub_entry_spec(id, name, device_type, percentage, charging);
            &&& e.name == name
            &&& e.id == "ghub:"@ + id
            &&& e.device_type == device_type
            &&& e.percentage == percentage
            &&& e.charging == charging
            &&& (e.online <==> percentage is Some)
            &&& e.source == "ghub"@
        }),
{
}

/// A battery device with an id is queried under that id, named by its
/// extended display name when it has one and by its id otherwise; a device
/// without battery is skipped, and a battery device without id aborts the list.
pub proof fn law_classify_names_device(info: GhubInfoView)
    ensures
        !info.has_battery ==> classify_spec(info) == Some(
            None::<(Seq<char>, Seq<char>, Seq<char>)>,
        ),
        info.has_battery && info.id is None ==> classify_spec(info) is None,
        info.has_battery ==> (info.id matches Some(id) ==> (classify_spec(info) matches Some(
            Some(t),
        ) && t.0 == id && t.1 == (match info.display_name {
            Some(n) => n,
            None => id,
        }))),
{
}

} // verus!
