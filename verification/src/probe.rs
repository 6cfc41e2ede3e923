//! The probing sequence for one physical HID++ device (receiver, wired or
//! Bluetooth device), as a state machine: the caller sends the request that
//! `Probe::request` names, hands the outcome to `Probe::step`, and repeats
//! until no request is left.
//!
//! A HID++ 2.0 answer at index 0xFF is a directly connected device; a HID++
//! 1.0 "invalid sub id" error there is a receiver, whose paired-device slots
//! 1 to 6 are then probed one by one. A HID++ 2.0 device is read through the
//! first battery feature it has (0x1004, then 0x1001, then 0x1000) and
//! feature 0x0005 for its name and type; a HID++ 1.0 paired device through
//! battery registers 0x0D then 0x07.

use vstd::prelude::*;
use vstd::string::StringExecFns;

use crate::battery::{entry_views, DeviceBattery, EntryView};
use crate::proto::{
    battery_status_reading, battery_voltage_reading, bolt_codename_request_bytes,
    codename_at, codename_request_bytes, device_type_label, device_type_name, get_feature,
    get_feature_bytes, parse_battery_status, parse_battery_voltage, parse_codename,
    parse_codename_bolt, parse_feature_index, parse_pong, parse_reg_mileage, parse_reg_status,
    parse_unified_battery, ping, ping_bytes, read_codename, read_codename_bolt, read_register,
    read_long_register_bytes, read_register_bytes, reg_mileage_reading, reg_status_reading, short_msg, short_msg_bytes,
    unified_battery_reading, valid_reading, BatteryReading, DEV_IDX_DIRECT, ERR_INVALID_SUBID,
    FEAT_BATTERY_STATUS, FEAT_BATTERY_VOLTAGE, FEAT_DEVICE_NAME, FEAT_UNIFIED_BATTERY,
    REG_BATTERY_MILEAGE, REG_BATTERY_STATUS,
};
use crate::text::{decimal, decode_utf8_lossy, push_decimal, trim_nul, trim_trailing_nul, utf8_lossy};
use crate::transport::{offline_error, RpcError};

verus! {

/// Source tag of the entries this prober reports.
pub const SOURCE: &'static str = "hidpp";

/// Marker echoed by a pong.
pub const PING_MARKER: u8 = 0x5A;

/// Paired-device slots of Unifying, Bolt and Lightspeed receivers.
pub const MAX_SLOTS: u8 = 6;

/// Longest device name read through feature 0x0005.
pub const NAME_LIMIT: u8 = 64;

/// The battery features of HID++ 2.0, in the order they are tried.
#[derive(Debug, Clone, Copy, PartialEq, Eq, Structural)]
pub enum BatteryFeature {
    Unified,
    Voltage,
    Status,
}

pub open spec fn feature_id(k: BatteryFeature) -> u16 {
    match k {
        BatteryFeature::Unified => FEAT_UNIFIED_BATTERY,
        BatteryFeature::Voltage => FEAT_BATTERY_VOLTAGE,
        BatteryFeature::Status => FEAT_BATTERY_STATUS,
    }
}

/// The function that reads the battery: get_status (1) for 0x1004, function 0 otherwise.
pub open spec fn battery_function(k: BatteryFeature) -> u8 {
    match k {
        BatteryFeature::Unified => 1,
        _ => 0,
    }
}

pub open spec fn next_feature(k: BatteryFeature) -> Option<BatteryFeature> {
    match k {
        BatteryFeature::Unified => Some(BatteryFeature::Voltage),
        BatteryFeature::Voltage => Some(BatteryFeature::Status),
        BatteryFeature::Status => None,
    }
}

pub open spec fn feature_reading(k: BatteryFeature, params: Seq<u8>) -> BatteryReading {
    match k {
        BatteryFeature::Unified => unified_battery_reading(params),
        BatteryFeature::Voltage => battery_voltage_reading(params),
        BatteryFeature::Status => battery_status_reading(params),
    }
}

/// The device being read: its index (a slot, or 0xFF for a direct device)
/// and the codename its receiver reported, if any.
pub struct Target {
    pub idx: u8,
    pub codename: Option<String>,
}

pub struct TargetView {
    pub idx: u8,
    pub codename: Option<Seq<char>>,
}

pub open spec fn opt_view(s: Option<String>) -> Option<Seq<char>> {
    match s {
        Some(t) => Some(t@),
        None => None,
    }
}

impl View for Target {
    type V = TargetView;

    open spec fn view(&self) -> TargetView {
        TargetView { idx: self.idx, codename: opt_view(self.codename) }
    }
}

/// Where the probe stands: the request it waits for an answer to.
pub enum Stage {
    /// Ping at index 0xFF.
    DirectPing,
    /// Receiver codename of a slot (page 0x40|n of register 0xB5).
    SlotCodename(u8),
    /// Bolt receiver codename of a slot (page 0x60+n).
    SlotCodenameBolt(u8),
    /// Ping of a slot, with the codename found for it.
    SlotPing(u8, Option<String>),
    /// getFeature for a battery feature.
    Feature(Target, BatteryFeature),
    /// Battery read through the feature found at the given index.
    BatteryRead(Target, BatteryFeature, u8),
    /// getFeature for DEVICE_NAME, with the battery reading obtained.
    NameFeature(Target, BatteryReading),
    /// Name length through DEVICE_NAME at the given index.
    NameLength(Target, BatteryReading, u8),
    /// Next name chunk: feature index, name length, bytes read so far.
    NameChunk(Target, BatteryReading, u8, u8, Vec<u8>),
    /// Device type: feature index and the name read, if any.
    DeviceType(Target, BatteryReading, u8, Option<String>),
    /// HID++ 1.0 battery mileage register.
    RegMileage(Target),
    /// HID++ 1.0 battery status register.
    RegStatus(Target),
    /// Nothing left to ask.
    Done,
}

pub enum StageView {
    DirectPing,
    SlotCodename(u8),
    SlotCodenameBolt(u8),
    SlotPing(u8, Option<Seq<char>>),
    Feature(TargetView, BatteryFeature),
    BatteryRead(TargetView, BatteryFeature, u8),
    NameFeature(TargetView, BatteryReading),
    NameLength(TargetView, BatteryReading, u8),
    NameChunk(TargetView, BatteryReading, u8, u8, Seq<u8>),
    DeviceType(TargetView, BatteryReading, u8, Option<Seq<char>>),
    RegMileage(TargetView),
    RegStatus(TargetView),
    Done,
}

impl View for Stage {
    type V = StageView;

    open spec fn view(&self) -> StageView {
        match self {
            Stage::DirectPing => StageView::DirectPing,
            Stage::SlotCodename(s) => StageView::SlotCodename(*s),
            Stage::SlotCodenameBolt(s) => StageView::SlotCodenameBolt(*s),
            Stage::SlotPing(s, c) => StageView::SlotPing(*s, opt_view(*c)),
            Stage::Feature(t, k) => StageView::Feature(t@, *k),
            Stage::BatteryRead(t, k, fi) => StageView::BatteryRead(t@, *k, *fi),
            Stage::NameFeature(t, r) => StageView::NameFeature(t@, *r),
            Stage::NameLength(t, r, fi) => StageView::NameLength(t@, *r, *fi),
            Stage::NameChunk(t, r, fi, len, b) => StageView::NameChunk(t@, *r, *fi, *len, b@),
            Stage::DeviceType(t, r, fi, n) => StageView::DeviceType(t@, *r, *fi, opt_view(*n)),
            Stage::RegMileage(t) => StageView::RegMileage(t@),
            Stage::RegStatus(t) => StageView::RegStatus(t@),
            Stage::Done => StageView::Done,
        }
    }
}

/// The probe of one physical device.
pub struct Probe {
    key: String,
    product: String,
    stage: Stage,
    found: Vec<DeviceBattery>,
}

pub struct ProbeView {
    /// Stable key of the physical device.
    pub key: Seq<char>,
    /// Product string of the physical device, the fallback display name.
    pub product: Seq<char>,
    pub stage: StageView,
    /// Entries found so far, in order.
    pub found: Seq<EntryView>,
}

impl View for Probe {
    type V = ProbeView;

    closed spec fn view(&self) -> ProbeView {
        ProbeView {
            key: self.key@,
            product: self.product@,
            stage: self.stage@,
            found: entry_views(self.found@),
        }
    }
}

/// The outcome of a request as plain values.
pub open spec fn reply_view(r: Result<Vec<u8>, RpcError>) -> Result<Seq<u8>, RpcError> {
    match r {
        Ok(p) => Ok(p@),
        Err(e) => Err(e),
    }
}

/// A valid slot or direct index.
pub open spec fn valid_index(idx: u8) -> bool {
    idx == DEV_IDX_DIRECT || (1 <= idx <= MAX_SLOTS)
}

pub open spec fn valid_slot(slot: u8) -> bool {
    1 <= slot <= MAX_SLOTS
}

/// Bounds every stage keeps.
pub open spec fn stage_ok(s: StageView) -> bool {
    match s {
        StageView::SlotCodename(slot) => valid_slot(slot),
        StageView::SlotCodenameBolt(slot) => valid_slot(slot),
        StageView::SlotPing(slot, _) => valid_slot(slot),
        StageView::Feature(t, _) => valid_index(t.idx),
        StageView::BatteryRead(t, _, _) => valid_index(t.idx),
        StageView::NameFeature(t, r) => valid_index(t.idx) && valid_reading(r),
        StageView::NameLength(t, r, _) => valid_index(t.idx) && valid_reading(r),
        StageView::NameChunk(t, r, _, len, bytes) => valid_index(t.idx) && valid_reading(r)
            && bytes.len() < len <= NAME_LIMIT,
        StageView::DeviceType(t, r, _, _) => valid_index(t.idx) && valid_reading(r),
        StageView::RegMileage(t) => valid_slot(t.idx),
        StageView::RegStatus(t) => valid_slot(t.idx),
        _ => true,
    }
}

/// A device name read through DEVICE_NAME has at most `NAME_LIMIT` characters.
pub open spec fn name_within_limit(s: StageView) -> bool {
    s matches StageView::DeviceType(_, _, _, Some(n)) ==> n.len() <= NAME_LIMIT
}

/// The request the probe waits for in stage `s`, or None when it is done.
pub open spec fn request_spec(s: StageView) -> Option<Seq<u8>> {
    match s {
        StageView::DirectPing => Some(ping_bytes(DEV_IDX_DIRECT, PING_MARKER)),
        StageView::SlotCodename(slot) => Some(codename_request_bytes(slot)),
        StageView::SlotCodenameBolt(slot) => Some(bolt_codename_request_bytes(slot)),
        StageView::SlotPing(slot, _) => Some(ping_bytes(slot, PING_MARKER)),
        StageView::Feature(t, k) => Some(get_feature_bytes(t.idx, feature_id(k))),
        StageView::BatteryRead(t, k, fi) => Some(
            short_msg_bytes(t.idx, fi, battery_function(k), seq![0u8, 0u8, 0u8]),
        ),
        StageView::NameFeature(t, _) => Some(get_feature_bytes(t.idx, FEAT_DEVICE_NAME)),
        StageView::NameLength(t, _, fi) => Some(short_msg_bytes(t.idx, fi, 0, seq![0u8, 0u8, 0u8])),
        StageView::NameChunk(t, _, fi, _, bytes) => Some(
            short_msg_bytes(t.idx, fi, 1, seq![bytes.len() as u8, 0u8, 0u8]),
        ),
        StageView::DeviceType(t, _, fi, _) => Some(short_msg_bytes(t.idx, fi, 2, seq![0u8, 0u8, 0u8])),
        StageView::RegMileage(t) => Some(read_register_bytes(t.idx, REG_BATTERY_MILEAGE)),
        StageView::RegStatus(t) => Some(read_register_bytes(t.idx, REG_BATTERY_STATUS)),
        StageView::Done => None,
    }
}

/// How many reply parameters the parser of stage `s` reads.
pub open spec fn params_needed(s: StageView) -> nat {
    match s {
        StageView::Feature(..) => 1,
        StageView::BatteryRead(..) => 3,
        StageView::NameFeature(..) => 1,
        StageView::NameLength(..) => 1,
        StageView::DeviceType(..) => 1,
        StageView::RegMileage(..) => 3,
        StageView::RegStatus(..) => 2,
        _ => 0,
    }
}

/// A successful reply carries the parameters the stage's parser reads.
pub open spec fn reply_fits(s: StageView, r: Result<Seq<u8>, RpcError>) -> bool {
    r matches Ok(p) ==> p.len() >= params_needed(s)
}

/// The id of the entry for index `idx` of the device with key `key`.
pub open spec fn device_id_spec(key: Seq<char>, idx: u8) -> Seq<char> {
    "hidpp:"@ + key + ":"@ + decimal(idx)
}

/// The name of an entry without a name of its own: the codename, else the product string.
pub open spec fn codename_or_product(codename: Option<Seq<char>>, product: Seq<char>) -> Seq<char> {
    match codename {
        Some(c) => c,
        None => product,
    }
}

/// The name of a HID++ 2.0 entry: the nonempty name read from the device,
/// else the codename, else the product string.
pub open spec fn entry_name(
    name: Option<Seq<char>>,
    codename: Option<Seq<char>>,
    product: Seq<char>,
) -> Seq<char> {
    match name {
        Some(n) => if n.len() > 0 {
            n
        } else {
            codename_or_product(codename, product)
        },
        None => codename_or_product(codename, product),
    }
}

/// An entry for a paired device that does not answer.
pub open spec fn offline_entry_spec(
    key: Seq<char>,
    product: Seq<char>,
    idx: u8,
    codename: Option<Seq<char>>,
) -> EntryView {
    EntryView {
        id: device_id_spec(key, idx),
        name: codename_or_product(codename, product),
        device_type: "device"@,
        percentage: None,
        charging: false,
        online: false,
        source: "hidpp"@,
    }
}

/// An entry for a device that answered with a battery reading.
pub open spec fn online_entry_spec(
    key: Seq<char>,
    idx: u8,
    name: Seq<char>,
    device_type: Seq<char>,
    r: BatteryReading,
) -> EntryView {
    EntryView {
        id: device_id_spec(key, idx),
        name: name,
        device_type: device_type,
        percentage: r.percentage,
        charging: r.charging,
        online: true,
        source: "hidpp"@,
    }
}

/// The stage after the device at `idx` has been dealt with: the next slot of
/// a receiver, or the end.
pub open spec fn after(idx: u8) -> StageView {
    if 1 <= idx < MAX_SLOTS {
        StageView::SlotCodename((idx + 1) as u8)
    } else {
        StageView::Done
    }
}

pub open spec fn answers_ping(r: Result<Seq<u8>, RpcError>) -> bool {
    r matches Ok(p) && p.len() >= 3 && p[2] == PING_MARKER
}

/// HID++ 1.0 "invalid sub id": the index speaks HID++ 1.0.
pub open spec fn speaks_hidpp10(r: Result<Seq<u8>, RpcError>) -> bool {
    r matches Err(RpcError::Hidpp10(c)) && c == ERR_INVALID_SUBID
}

pub open spec fn unreachable(r: Result<Seq<u8>, RpcError>) -> bool {
    r matches Err(e) && offline_error(e)
}

/// The feature index a getFeature reply names, if the feature is supported.
pub open spec fn feature_index_of(r: Result<Seq<u8>, RpcError>) -> Option<u8> {
    match r {
        Ok(p) => if p[0] == 0 {
            None
        } else {
            Some(p[0])
        },
        Err(_) => None,
    }
}

/// The codename a codename reply gives, read with the length byte at `len_at`.
pub open spec fn codename_of(r: Result<Seq<u8>, RpcError>, len_at: int) -> Option<Seq<char>> {
    match r {
        Ok(p) => codename_at(p, len_at),
        Err(_) => None,
    }
}

pub open spec fn move_to(p: ProbeView, s: StageView) -> ProbeView {
    ProbeView { stage: s, ..p }
}

pub open spec fn report(p: ProbeView, e: EntryView, s: StageView) -> ProbeView {
    ProbeView { stage: s, found: p.found.push(e), ..p }
}

/// The HID++ 2.0 entry once the device type is known (or not).
pub open spec fn finish_hidpp2(
    p: ProbeView,
    t: TargetView,
    r: BatteryReading,
    name: Option<Seq<char>>,
    device_type: Option<Seq<char>>,
) -> ProbeView {
    let dtype = match device_type {
        Some(d) => d,
        None => "device"@,
    };
    report(
        p,
        online_entry_spec(p.key, t.idx, entry_name(name, t.codename, p.product), dtype, r),
        after(t.idx),
    )
}

/// The stage after an answer to a ping at `idx`.
pub open spec fn after_ping(
    p: ProbeView,
    idx: u8,
    codename: Option<Seq<char>>,
    r: Result<Seq<u8>, RpcError>,
) -> ProbeView {
    if answers_ping(r) {
        move_to(
            p,
            StageView::Feature(TargetView { idx, codename }, BatteryFeature::Unified),
        )
    } else if speaks_hidpp10(r) {
        if idx == DEV_IDX_DIRECT {
            move_to(p, StageView::SlotCodename(1))
        } else {
            move_to(p, StageView::RegMileage(TargetView { idx, codename }))
        }
    } else if unreachable(r) && (idx == DEV_IDX_DIRECT || codename is Some) {
        report(p, offline_entry_spec(p.key, p.product, idx, codename), after(idx))
    } else {
        move_to(p, after(idx))
    }
}

/// The outcome a step acts on: a successful reply too short for what the
/// pending stage reads counts as a failed request.
pub open spec fn effective_reply(s: StageView, r: Result<Seq<u8>, RpcError>) -> Result<Seq<u8>, RpcError> {
    if reply_fits(s, r) {
        r
    } else {
        Err(RpcError::Timeout)
    }
}

/// One step of the probe: the outcome `r` of the pending request decides the
/// next stage and whether an entry is reported.
pub open spec fn step_spec(p: ProbeView, r: Result<Seq<u8>, RpcError>) -> ProbeView {
    step_on(p, effective_reply(p.stage, r))
}

/// One step on an outcome that carries what the pending stage reads.
pub open spec fn step_on(p: ProbeView, r: Result<Seq<u8>, RpcError>) -> ProbeView {
    match p.stage {
        StageView::DirectPing => after_ping(p, DEV_IDX_DIRECT, None, r),
        StageView::SlotCodename(slot) => match codename_of(r, 1) {
            Some(c) => move_to(p, StageView::SlotPing(slot, Some(c))),
            None => move_to(p, StageView::SlotCodenameBolt(slot)),
        },
        StageView::SlotCodenameBolt(slot) => move_to(p, StageView::SlotPing(slot, codename_of(r, 2))),
        StageView::SlotPing(slot, c) => after_ping(p, slot, c, r),
        StageView::Feature(t, k) => match feature_index_of(r) {
            Some(fi) => move_to(p, StageView::BatteryRead(t, k, fi)),
            None => match next_feature(k) {
                Some(k2) => move_to(p, StageView::Feature(t, k2)),
                None => move_to(p, after(t.idx)),
            },
        },
        StageView::BatteryRead(t, k, _) => match r {
            Ok(params) => move_to(p, StageView::NameFeature(t, feature_reading(k, params))),
            Err(_) => move_to(p, after(t.idx)),
        },
        StageView::NameFeature(t, reading) => match feature_index_of(r) {
            Some(fi) => move_to(p, StageView::NameLength(t, reading, fi)),
            None => finish_hidpp2(p, t, reading, None, None),
        },
        StageView::NameLength(t, reading, fi) => match r {
            Ok(params) => {
                let len = if params[0] <= NAME_LIMIT {
                    params[0]
                } else {
                    NAME_LIMIT
                };
                if len == 0 {
                    move_to(p, StageView::DeviceType(t, reading, fi, Some(Seq::<char>::empty())))
                } else {
                    move_to(p, StageView::NameChunk(t, reading, fi, len, Seq::<u8>::empty()))
                }
            },
            Err(_) => move_to(p, StageView::DeviceType(t, reading, fi, None)),
        },
        StageView::NameChunk(t, reading, fi, len, bytes) => match r {
            Ok(chunk) => if chunk.len() == 0 {
                move_to(p, StageView::DeviceType(t, reading, fi, None))
            } else {
                let want = len - bytes.len();
                let take = if chunk.len() <= want {
                    chunk.len() as int
                } else {
                    want
                };
                let got = bytes + chunk.subrange(0, take);
                if got.len() < len {
                    move_to(p, StageView::NameChunk(t, reading, fi, len, got))
                } else {
                    move_to(
                        p,
                        StageView::DeviceType(t, reading, fi, Some(trim_nul(utf8_lossy(got)))),
                    )
                }
            },
            Err(_) => move_to(p, StageView::DeviceType(t, reading, fi, None)),
        },
        StageView::DeviceType(t, reading, _, name) => match r {
            Ok(params) => finish_hidpp2(p, t, reading, name, Some(device_type_label(params[0])@)),
            Err(_) => finish_hidpp2(p, t, reading, name, None),
        },
        StageView::RegMileage(t) => match r {
            Ok(params) => report(
                p,
                online_entry_spec(
                    p.key,
                    t.idx,
                    codename_or_product(t.codename, p.product),
                    "device"@,
                    reg_mileage_reading(params),
                ),
                after(t.idx),
            ),
            Err(_) => move_to(p, StageView::RegStatus(t)),
        },
        StageView::RegStatus(t) => match r {
            Ok(params) => report(
                p,
                online_entry_spec(
                    p.key,
                    t.idx,
                    codename_or_product(t.codename, p.product),
                    "device"@,
                    reg_status_reading(params),
                ),
                after(t.idx),
            ),
            Err(_) => move_to(p, after(t.idx)),
        },
        StageView::Done => p,
    }
}

fn device_id(key: &String, idx: u8) -> (r: String)
    ensures
        r@ == device_id_spec(key@, idx),
{
    let mut s = String::from_str("hidpp:");
    s.append(key.as_str());
    s.append(":");
    push_decimal(&mut s, idx);
    s
}

fn clone_name(s: &String) -> (r: String)
    ensures
        r@ == s@,
{
    String::from_str(s.as_str())
}

fn name_or_product(codename: Option<String>, product: &String) -> (r: String)
    ensures
        r@ == codename_or_product(opt_view(codename), product@),
{
    match codename {
        Some(c) => c,
        None => clone_name(product),
    }
}

fn stage_after(idx: u8) -> (s: Stage)
    ensures
        s@ == after(idx),
{
    if 1 <= idx && idx < MAX_SLOTS {
        Stage::SlotCodename(idx + 1)
    } else {
        Stage::Done
    }
}

fn reading_of(k: BatteryFeature, params: &Vec<u8>) -> (r: BatteryReading)
    requires
        params@.len() >= 3,
    ensures
        r == feature_reading(k, params@),
        valid_reading(r),
{
    match k {
        BatteryFeature::Unified => parse_unified_battery(params.as_slice()),
        BatteryFeature::Voltage => parse_battery_voltage(params.as_slice()),
        BatteryFeature::Status => parse_battery_status(params.as_slice()),
    }
}

fn feature_id_of(k: BatteryFeature) -> (id: u16)
    ensures
        id == feature_id(k),
{
    match k {
        BatteryFeature::Unified => FEAT_UNIFIED_BATTERY,
        BatteryFeature::Voltage => FEAT_BATTERY_VOLTAGE,
        BatteryFeature::Status => FEAT_BATTERY_STATUS,
    }
}

fn feature_index_in(r: &Result<Vec<u8>, RpcError>) -> (fi: Option<u8>)
    requires
        r matches Ok(p) ==> p@.len() >= 1,
    ensures
        fi == feature_index_of(reply_view(*r)),
{
    match r {
        Ok(p) => parse_feature_index(p.as_slice()),
        Err(_) => None,
    }
}

impl Probe {
    /// A fresh probe of the physical device with the given key and product string.
    pub fn new(key: String, product: String) -> (p: Probe)
        ensures
            p@ == (ProbeView {
                key: key@,
                product: product@,
                stage: StageView::DirectPing,
                found: Seq::<EntryView>::empty(),
            }),
            p.wf(),
    {
        let p = Probe { key, product, stage: Stage::DirectPing, found: Vec::new() };
        assert(entry_views(p.found@) =~= Seq::<EntryView>::empty());
        p
    }

    pub open spec fn wf(&self) -> bool {
        stage_ok(self@.stage) && name_within_limit(self@.stage)
    }

    /// Whether a reply carries what the pending stage reads from it.
    fn fits(&self, r: &Result<Vec<u8>, RpcError>) -> (b: bool)
        ensures
            b == reply_fits(self@.stage, reply_view(*r)),
    {
        let needed: usize = match &self.stage {
            Stage::Feature(..) => 1,
            Stage::BatteryRead(..) => 3,
            Stage::NameFeature(..) => 1,
            Stage::NameLength(..) => 1,
            Stage::DeviceType(..) => 1,
            Stage::RegMileage(..) => 3,
            Stage::RegStatus(..) => 2,
            _ => 0,
        };
        match r {
            Ok(p) => p.len() >= needed,
            Err(_) => true,
        }
    }

    /// The request to send next, or None when the probe is done.
    pub fn request(&self) -> (m: Option<[u8; 7]>)
        requires
            self.wf(),
        ensures
            m is None <==> request_spec(self@.stage) is None,
            m matches Some(b) ==> request_spec(self@.stage) == Some(b@),
    {
        match &self.stage {
            Stage::DirectPing => Some(ping(DEV_IDX_DIRECT, PING_MARKER)),
            Stage::SlotCodename(slot) => Some(read_codename(*slot)),
            Stage::SlotCodenameBolt(slot) => Some(read_codename_bolt(*slot)),
            Stage::SlotPing(slot, _) => Some(ping(*slot, PING_MARKER)),
            Stage::Feature(t, k) => Some(get_feature(t.idx, feature_id_of(*k))),
            Stage::BatteryRead(t, k, fi) => {
                let f: u8 = match k {
                    BatteryFeature::Unified => 1,
                    _ => 0,
                };
                let m = short_msg(t.idx, *fi, f, [0, 0, 0]);
                assert([0u8, 0u8, 0u8]@ =~= seq![0u8, 0u8, 0u8]);
                Some(m)
            },
            Stage::NameFeature(t, _) => Some(get_feature(t.idx, FEAT_DEVICE_NAME)),
            Stage::NameLength(t, _, fi) => {
                let m = short_msg(t.idx, *fi, 0, [0, 0, 0]);
                assert([0u8, 0u8, 0u8]@ =~= seq![0u8, 0u8, 0u8]);
                Some(m)
            },
            Stage::NameChunk(t, _, fi, _, bytes) => {
                let n = bytes.len() as u8;
                let m = short_msg(t.idx, *fi, 1, [n, 0, 0]);
                assert([n, 0u8, 0u8]@ =~= seq![bytes@.len() as u8, 0u8, 0u8]);
                Some(m)
            },
            Stage::DeviceType(t, _, fi, _) => {
                let m = short_msg(t.idx, *fi, 2, [0, 0, 0]);
                assert([0u8, 0u8, 0u8]@ =~= seq![0u8, 0u8, 0u8]);
                Some(m)
            },
            Stage::RegMileage(t) => Some(read_register(t.idx, REG_BATTERY_MILEAGE)),
            Stage::RegStatus(t) => Some(read_register(t.idx, REG_BATTERY_STATUS)),
            Stage::Done => None,
        }
    }

    fn push_entry(&mut self, e: DeviceBattery)
        ensures
            final(self).key == old(self).key,
            final(self).product == old(self).product,
            final(self).stage == old(self).stage,
            entry_views(final(self).found@) == entry_views(old(self).found@).push(e@),
    {
        self.found.push(e);
        assert(entry_views(self.found@) =~= entry_views(old(self).found@).push(e@));
    }

    fn offline(&self, idx: u8, codename: Option<String>) -> (e: DeviceBattery)
        ensures
            e@ == offline_entry_spec(self@.key, self@.product, idx, opt_view(codename)),
    {
        DeviceBattery {
            id: device_id(&self.key, idx),
            name: name_or_product(codename, &self.product),
            device_type: String::from_str("device"),
            percentage: None,
            charging: false,
            online: false,
            source: SOURCE,
        }
    }

    fn online(&self, idx: u8, name: String, device_type: String, r: BatteryReading) -> (e: DeviceBattery)
        ensures
            e@ == online_entry_spec(self@.key, idx, name@, device_type@, r),
    {
        DeviceBattery {
            id: device_id(&self.key, idx),
            name,
            device_type,
            percentage: r.percentage,
            charging: r.charging,
            online: true,
            source: SOURCE,
        }
    }

    /// Report the HID++ 2.0 entry of `t` and move on.
    fn finish_hidpp2(
        &mut self,
        t: Target,
        r: BatteryReading,
        name: Option<String>,
        device_type: Option<&'static str>,
    )
        requires
            old(self).stage@ is Done,
        ensures
            final(self)@ == finish_hidpp2(
                old(self)@,
                t@,
                r,
                opt_view(name),
                match device_type {
                    Some(d) => Some(d@),
                    None => None,
                },
            ),
    {
        let idx = t.idx;
        let chosen = match name {
            Some(n) => {
                if n.as_str().unicode_len() > 0 {
                    n
                } else {
                    name_or_product(t.codename, &self.product)
                }
            },
            None => name_or_product(t.codename, &self.product),
        };
        let dtype = match device_type {
            Some(d) => String::from_str(d),
            None => String::from_str("device"),
        };
        let e = self.online(idx, chosen, dtype, r);
        self.push_entry(e);
        self.stage = stage_after(idx);
    }

    /// Report an offline entry for `idx` and move on.
    fn finish_offline(&mut self, idx: u8, codename: Option<String>)
        ensures
            final(self)@ == report(
                old(self)@,
                offline_entry_spec(old(self)@.key, old(self)@.product, idx, opt_view(codename)),
                after(idx),
            ),
    {
        let e = self.offline(idx, codename);
        self.push_entry(e);
        self.stage = stage_after(idx);
    }

    fn answer_ping(&mut self, idx: u8, codename: Option<String>, r: Result<Vec<u8>, RpcError>)
        requires
            valid_index(idx),
            old(self).stage@ is Done,
        ensures
            final(self)@ == after_ping(old(self)@, idx, opt_view(codename), reply_view(r)),
            final(self).wf(),
    {
        match r {
            Ok(p) => {
                if parse_pong(p.as_slice(), PING_MARKER) {
                    self.stage = Stage::Feature(Target { idx, codename }, BatteryFeature::Unified);
                } else {
                    self.stage = stage_after(idx);
                }
            },
            Err(e) => {
                let invalid_subid = match &e {
                    RpcError::Hidpp10(c) => *c == ERR_INVALID_SUBID,
                    _ => false,
                };
                if invalid_subid {
                    if idx == DEV_IDX_DIRECT {
                        self.stage = Stage::SlotCodename(1);
                    } else {
                        self.stage = Stage::RegMileage(Target { idx, codename });
                    }
                } else if e.is_offline() && (idx == DEV_IDX_DIRECT || codename.is_some()) {
                    self.finish_offline(idx, codename);
                } else {
                    self.stage = stage_after(idx);
                }
            },
        }
    }

    /// Take the outcome of the pending request into account; a reply too
    /// short for what the pending stage reads counts as a failed request.
    pub fn step(&mut self, r: Result<Vec<u8>, RpcError>)
        requires
            old(self).wf(),
        ensures
            final(self)@ == step_spec(old(self)@, reply_view(r)),
            final(self).wf(),
    {
        let fitting = if self.fits(&r) {
            r
        } else {
            Err(RpcError::Timeout)
        };
        self.step_on(fitting);
    }

    fn step_on(&mut self, r: Result<Vec<u8>, RpcError>)
        requires
            old(self).wf(),
            reply_fits(old(self)@.stage, reply_view(r)),
        ensures
            final(self)@ == step_on(old(self)@, reply_view(r)),
            final(self).wf(),
    {
        let mut stage = Stage::Done;
        std::mem::swap(&mut stage, &mut self.stage);
        match stage {
            Stage::DirectPing => self.answer_ping(DEV_IDX_DIRECT, None, r),
            Stage::SlotCodename(slot) => {
                let codename = match &r {
                    Ok(p) => parse_codename(p.as_slice()),
                    Err(_) => None,
                };
                match codename {
                    Some(c) => self.stage = Stage::SlotPing(slot, Some(c)),
                    None => self.stage = Stage::SlotCodenameBolt(slot),
                }
            },
            Stage::SlotCodenameBolt(slot) => {
                let codename = match &r {
                    Ok(p) => parse_codename_bolt(p.as_slice()),
                    Err(_) => None,
                };
                self.stage = Stage::SlotPing(slot, codename);
            },
            Stage::SlotPing(slot, codename) => self.answer_ping(slot, codename, r),
            Stage::Feature(t, k) => {
                match feature_index_in(&r) {
                    Some(fi) => self.stage = Stage::BatteryRead(t, k, fi),
                    None => match k {
                        BatteryFeature::Unified => self.stage = Stage::Feature(t, BatteryFeature::Voltage),
                        BatteryFeature::Voltage => self.stage = Stage::Feature(t, BatteryFeature::Status),
                        BatteryFeature::Status => self.stage = stage_after(t.idx),
                    },
                }
            },
            Stage::BatteryRead(t, k, _) => {
                match &r {
                    Ok(p) => {
                        let reading = reading_of(k, p);
                        self.stage = Stage::NameFeature(t, reading);
                    },
                    Err(_) => self.stage = stage_after(t.idx),
                }
            },
            Stage::NameFeature(t, reading) => {
                match feature_index_in(&r) {
                    Some(fi) => self.stage = Stage::NameLength(t, reading, fi),
                    None => self.finish_hidpp2(t, reading, None, None),
                }
            },
            Stage::NameLength(t, reading, fi) => {
                match &r {
                    Ok(p) => {
                        let len = if p[0] <= NAME_LIMIT {
                            p[0]
                        } else {
                            NAME_LIMIT
                        };
                        if len == 0 {
                            let empty = String::new();
                            self.stage = Stage::DeviceType(t, reading, fi, Some(empty));
                        } else {
                            self.stage = Stage::NameChunk(t, reading, fi, len, Vec::new());
                        }
                    },
                    Err(_) => self.stage = Stage::DeviceType(t, reading, fi, None),
                }
            },
            Stage::NameChunk(t, reading, fi, len, bytes) => {
                match &r {
                    Ok(chunk) => {
                        if chunk.len() == 0 {
                            self.stage = Stage::DeviceType(t, reading, fi, None);
                        } else {
                            let want = (len as usize) - bytes.len();
                            let take = if chunk.len() <= want {
                                chunk.len()
                            } else {
                                want
                            };
                            let mut got = bytes;
                            let ghost before = got@;
                            let mut i: usize = 0;
                            while i < take
                                invariant
                                    take <= chunk@.len(),
                                    i <= take,
                                    got@ == before + chunk@.subrange(0, i as int),
                                decreases take - i,
                            {
                                got.push(chunk[i]);
                                assert(chunk@.subrange(0, i + 1) =~= chunk@.subrange(0, i as int).push(
                                    chunk@[i as int],
                                ));
                                assert(got@ =~= before + chunk@.subrange(0, i + 1));
                                i = i + 1;
                            }
                            if got.len() < len as usize {
                                self.stage = Stage::NameChunk(t, reading, fi, len, got);
                            } else {
                                let text = decode_utf8_lossy(got.as_slice());
                                let name = trim_trailing_nul(&text);
                                self.stage = Stage::DeviceType(t, reading, fi, Some(name));
                            }
                        }
                    },
                    Err(_) => self.stage = Stage::DeviceType(t, reading, fi, None),
                }
            },
            Stage::DeviceType(t, reading, _, name) => {
                match &r {
                    Ok(p) => {
                        let d = device_type_name(p[0]);
                        self.finish_hidpp2(t, reading, name, Some(d));
                    },
                    Err(_) => self.finish_hidpp2(t, reading, name, None),
                }
            },
            Stage::RegMileage(t) => {
                match &r {
                    Ok(p) => {
                        let reading = parse_reg_mileage(p.as_slice());
                        let idx = t.idx;
                        let name = name_or_product(t.codename, &self.product);
                        let e = self.online(idx, name, String::from_str("device"), reading);
                        self.push_entry(e);
                        self.stage = stage_after(idx);
                    },
                    Err(_) => self.stage = Stage::RegStatus(t),
                }
            },
            Stage::RegStatus(t) => {
                match &r {
                    Ok(p) => {
                        let reading = parse_reg_status(p.as_slice());
                        let idx = t.idx;
                        let name = name_or_product(t.codename, &self.product);
                        let e = self.online(idx, name, String::from_str("device"), reading);
                        self.push_entry(e);
                        self.stage = stage_after(idx);
                    },
                    Err(_) => self.stage = stage_after(t.idx),
                }
            },
            Stage::Done => {},
        }
    }

    /// The entries found, once the probe is done (or at any point before).
    pub fn finish(self) -> (r: Vec<DeviceBattery>)
        ensures
            entry_views(r@) == self@.found,
    {
        self.found
    }
}

pub open spec fn feature_rank(k: BatteryFeature) -> nat {
    match k {
        BatteryFeature::Unified => 3,
        BatteryFeature::Voltage => 2,
        BatteryFeature::Status => 1,
    }
}

/// The index of the device a stage deals with, for stages tied to one.
pub open spec fn stage_index(s: StageView) -> Option<u8> {
    match s {
        StageView::SlotCodename(slot) => Some(slot),
        StageView::SlotCodenameBolt(slot) => Some(slot),
        StageView::SlotPing(slot, _) => Some(slot),
        StageView::Feature(t, _) => Some(t.idx),
        StageView::BatteryRead(t, _, _) => Some(t.idx),
        StageView::NameFeature(t, _) => Some(t.idx),
        StageView::NameLength(t, _, _) => Some(t.idx),
        StageView::NameChunk(t, _, _, _, _) => Some(t.idx),
        StageView::DeviceType(t, _, _, _) => Some(t.idx),
        StageView::RegMileage(t) => Some(t.idx),
        StageView::RegStatus(t) => Some(t.idx),
        _ => None,
    }
}

/// Receiver slots still to be probed after the current one.
pub open spec fn slots_after(s: StageView) -> nat {
    match s {
        StageView::DirectPing => 7,
        StageView::Done => 0,
        _ => match stage_index(s) {
            Some(idx) => if 1 <= idx <= MAX_SLOTS {
                (MAX_SLOTS - idx) as nat
            } else {
                0
            },
            None => 0,
        },
    }
}

/// Progress within the current device.
pub open spec fn local_measure(s: StageView) -> nat {
    match s {
        StageView::SlotCodename(_) => 900,
        StageView::SlotCodenameBolt(_) => 800,
        StageView::SlotPing(_, _) => 700,
        StageView::Feature(_, k) => 500 + 20 * feature_rank(k) + 10,
        StageView::BatteryRead(_, k, _) => 500 + 20 * feature_rank(k),
        StageView::NameFeature(_, _) => 400,
        StageView::NameLength(_, _, _) => 300,
        StageView::NameChunk(_, _, _, len, bytes) => (100 + len - bytes.len()) as nat,
        StageView::DeviceType(_, _, _, _) => 50,
        StageView::RegMileage(_) => 40,
        StageView::RegStatus(_) => 30,
        _ => 0,
    }
}

/// A bound on the requests the probe still sends.
pub open spec fn measure(s: StageView) -> nat {
    slots_after(s) * 1000 + local_measure(s)
}

/// Every step of an unfinished probe decreases the measure, so the probe
/// ends after a bounded number of requests, whatever the device answers.
pub proof fn law_probe_terminates(p: ProbeView, r: Result<Seq<u8>, RpcError>)
    requires
        stage_ok(p.stage),
        !(p.stage is Done),
    ensures
        measure(step_spec(p, r).stage) < measure(p.stage),
{
}

/// Steps keep the stage bounds.
pub proof fn law_stage_bounds_kept(p: ProbeView, r: Result<Seq<u8>, RpcError>)
    requires
        stage_ok(p.stage),
    ensures
        stage_ok(step_spec(p, r).stage),
{
    lemma_readings_valid(p.stage, effective_reply(p.stage, r));
}

proof fn lemma_readings_valid(s: StageView, r: Result<Seq<u8>, RpcError>)
    requires
        reply_fits(s, r),
    ensures
        s matches StageView::BatteryRead(_, k, _) ==> (r matches Ok(params) ==> valid_reading(
            feature_reading(k, params),
        )),
{
    if let StageView::BatteryRead(_, k, _) = s {
        if let Ok(params) = r {
            if k == BatteryFeature::Voltage {
                let mv = crate::proto::reply_millivolts(params);
                // the percentage of the curve exists for every voltage
                lemma_curve_percent_exists(mv);
            }
        }
    }
}

proof fn lemma_curve_percent_exists(mv: u16)
    ensures
        crate::proto::is_curve_percent(mv, crate::proto::curve_percent(mv)),
{
    let p = curve_percent_witness(mv, 0);
    assert(crate::proto::is_curve_percent(mv, p));
}

proof fn curve_percent_witness(mv: u16, i: int) -> (p: u8)
    requires
        0 <= i <= 100,
        forall|j: int| 0 <= j < i ==> mv < #[trigger] crate::proto::VOLTAGE_CURVE@[j],
    ensures
        crate::proto::is_curve_percent(mv, p),
    decreases 100 - i,
{
    if i == 100 {
        0
    } else if mv >= crate::proto::VOLTAGE_CURVE@[i] {
        (100 - i) as u8
    } else {
        curve_percent_witness(mv, i + 1)
    }
}

/// Every request names a valid device index: 0xFF, or a receiver slot 1 to 6.
pub proof fn law_requests_address_valid_indices(s: StageView)
    requires
        stage_ok(s),
        request_spec(s) is Some,
    ensures
        valid_index(request_spec(s)->0[1]),
{
}

/// A device stage of the directly connected device (index 0xFF).
pub open spec fn direct_device_stage(s: StageView) -> bool {
    match s {
        StageView::Feature(t, _) => t.idx == DEV_IDX_DIRECT,
        StageView::BatteryRead(t, _, _) => t.idx == DEV_IDX_DIRECT,
        StageView::NameFeature(t, _) => t.idx == DEV_IDX_DIRECT,
        StageView::NameLength(t, _, _) => t.idx == DEV_IDX_DIRECT,
        StageView::NameChunk(t, _, _, _, _) => t.idx == DEV_IDX_DIRECT,
        StageView::DeviceType(t, _, _, _) => t.idx == DEV_IDX_DIRECT,
        _ => false,
    }
}

/// Once a device has answered HID++ 2.0 at index 0xFF, it is read there only:
/// receiver slots are never probed, as some wired devices answer on every index.
pub proof fn law_direct_device_never_probes_slots(p: ProbeView, r: Result<Seq<u8>, RpcError>)
    requires
        direct_device_stage(p.stage) || (p.stage is DirectPing && answers_ping(r)),
    ensures
        step_spec(p, r).stage is Done || direct_device_stage(step_spec(p, r).stage),
        direct_device_stage(p.stage) ==> request_spec(p.stage)->0[1] == DEV_IDX_DIRECT,
{
}

/// A slot without a codename that does not answer is not reported: only
/// slots known to be paired get an offline entry.
pub proof fn law_unpaired_silent_slot_not_reported(p: ProbeView, slot: u8, r: Result<Seq<u8>, RpcError>)
    requires
        valid_slot(slot),
        p.stage == StageView::SlotPing(slot, None),
        !answers_ping(r),
        !speaks_hidpp10(r),
    ensures
        step_spec(p, r).found == p.found,
{
}

/// Entries the probe reports: tagged "hidpp", with the id of a valid index,
/// a percentage within 0..=100, and no battery state when offline.
pub open spec fn entry_ok(key: Seq<char>, e: EntryView) -> bool {
    &&& e.source == "hidpp"@
    &&& exists|idx: u8| valid_index(idx) && e.id == device_id_spec(key, idx)
    &&& e.percentage matches Some(pc) ==> pc <= 100
    &&& !e.online ==> e.percentage is None && !e.charging
}

pub open spec fn entries_ok(p: ProbeView) -> bool {
    forall|i: int| 0 <= i < p.found.len() ==> entry_ok(p.key, #[trigger] p.found[i])
}

/// A step keeps the entries found so far and adds at most one, which is well formed.
pub proof fn law_step_reports_well_formed_entries(p: ProbeView, r: Result<Seq<u8>, RpcError>)
    requires
        stage_ok(p.stage),
        entries_ok(p),
    ensures
        entries_ok(step_spec(p, r)),
        step_spec(p, r).key == p.key,
        step_spec(p, r).found.len() <= p.found.len() + 1,
        step_spec(p, r).found.subrange(0, p.found.len() as int) == p.found,
{
    lemma_readings_valid(p.stage, effective_reply(p.stage, r));
    let q = step_spec(p, r);
    assert(q.found.subrange(0, p.found.len() as int) =~= p.found);
    if q.found.len() > p.found.len() {
        let e = q.found[p.found.len() as int];
        let idx: u8 = match p.stage {
            StageView::DirectPing => DEV_IDX_DIRECT,
            _ => stage_index(p.stage)->0,
        };
        assert(valid_index(idx));
        assert(e.id == device_id_spec(p.key, idx)) by {
            lemma_reported_entry_index(p, r);
        }
        assert(entry_ok(p.key, e));
        assert forall|i: int| 0 <= i < q.found.len() implies entry_ok(q.key, #[trigger] q.found[i]) by {
            if i < p.found.len() {
                assert(q.found[i] == p.found[i]);
            }
        }
    }
}

proof fn lemma_reported_entry_index(p: ProbeView, r: Result<Seq<u8>, RpcError>)
    requires
        step_spec(p, r).found.len() > p.found.len(),
    ensures
        step_spec(p, r).found.last().id == device_id_spec(
            p.key,
            match p.stage {
                StageView::DirectPing => DEV_IDX_DIRECT,
                _ => stage_index(p.stage)->0,
            },
        ),
        step_spec(p, r).found.last() == step_spec(p, r).found[p.found.len() as int],
{
    let q = step_spec(p, r);
    assert(q.found.len() == p.found.len() + 1);
    match p.stage {
        StageView::DirectPing => {},
        StageView::SlotPing(_, _) => {},
        StageView::NameFeature(t, reading) => {},
        StageView::DeviceType(t, reading, _, name) => {},
        StageView::RegMileage(t) => {},
        StageView::RegStatus(t) => {},
        _ => {},
    }
}

/// A HID++ 1.0 paired device is read through the battery mileage register
/// 0x0D; when that read fails, whatever the error, the probe asks the battery
/// status register 0x07 of the same slot next, reporting nothing yet.
pub proof fn law_mileage_error_falls_back_to_status_register(
    p: ProbeView,
    t: TargetView,
    e: RpcError,
)
    requires
        valid_slot(t.idx),
        p.stage == StageView::RegMileage(t),
    ensures
        step_spec(p, Err(e)).stage == StageView::RegStatus(t),
        request_spec(step_spec(p, Err(e)).stage) == Some(read_register_bytes(t.idx, 0x07)),
        step_spec(p, Err(e)).found == p.found,
{
}

/// The whole HID++ 1.0 path of a receiver slot: a ping answered with
/// "invalid sub id" leads to a read of register 0x0D; when that read fails,
/// register 0x07 is read; a status reply then reports the slot's device,
/// online, named by its codename (else the product string), with the level
/// and charging state of that reply; and the probe goes on with the next slot.
/// When the 0x07 read fails too, the device is not listed.
pub proof fn law_hidpp10_slot_read_through_registers(
    p: ProbeView,
    slot: u8,
    codename: Option<Seq<char>>,
    e: RpcError,
    outcome: Result<Seq<u8>, RpcError>,
)
    requires
        valid_slot(slot),
        p.stage == StageView::SlotPing(slot, codename),
        outcome matches Ok(params) ==> params.len() >= 2,
    ensures
        ({
            let p1 = step_spec(p, Err(RpcError::Hidpp10(0x01)));
            let p2 = step_spec(p1, Err(e));
            let p3 = step_spec(p2, outcome);
            let next = if slot < 6 {
                StageView::SlotCodename((slot + 1) as u8)
            } else {
                StageView::Done
            };
            &&& request_spec(p1.stage) == Some(read_register_bytes(slot, 0x0D))
            &&& p1.found == p.found
            &&& request_spec(p2.stage) == Some(read_register_bytes(slot, 0x07))
            &&& p2.found == p.found
            &&& p3.stage == next
            &&& outcome matches Ok(params) ==> p3.found == p.found.push(
                EntryView {
                    id: "hidpp:"@ + p.key + ":"@ + decimal(slot),
                    name: match codename {
                        Some(c) => c,
                        None => p.product,
                    },
                    device_type: "device"@,
                    percentage: reg_status_reading(params).percentage,
                    charging: reg_status_reading(params).charging,
                    online: true,
                    source: "hidpp"@,
                },
            )
            &&& outcome is Err ==> p3.found == p.found
        }),
{
}

/// A HID++ 1.0 paired device whose mileage register answers is reported
/// online with the reading of that reply, and the status register is not read.
pub proof fn law_hidpp10_mileage_reply_reported(p: ProbeView, t: TargetView, params: Seq<u8>)
    requires
        valid_slot(t.idx),
        p.stage == StageView::RegMileage(t),
        params.len() >= 3,
    ensures
        step_spec(p, Ok(params)).found == p.found.push(
            EntryView {
                id: "hidpp:"@ + p.key + ":"@ + decimal(t.idx),
                name: match t.codename {
                    Some(c) => c,
                    None => p.product,
                },
                device_type: "device"@,
                percentage: reg_mileage_reading(params).percentage,
                charging: reg_mileage_reading(params).charging,
                online: true,
                source: "hidpp"@,
            },
        ),
        !(step_spec(p, Ok(params)).stage is RegStatus),
{
}

/// The battery features are tried in the order 0x1004, 0x1001, 0x1000: a
/// feature the device lacks (index 0, or a failed getFeature) moves on to the
/// next one, and after 0x1000 the device is left unlisted.
pub proof fn law_battery_features_tried_in_order(
    p: ProbeView,
    t: TargetView,
    k: BatteryFeature,
    r: Result<Seq<u8>, RpcError>,
)
    requires
        valid_index(t.idx),
        p.stage == StageView::Feature(t, k),
        r matches Ok(params) ==> params.len() >= 1 && params[0] == 0,
    ensures
        step_spec(p, r).found == p.found,
        k == BatteryFeature::Unified ==> step_spec(p, r).stage == StageView::Feature(
            t,
            BatteryFeature::Voltage,
        ),
        k == BatteryFeature::Voltage ==> step_spec(p, r).stage == StageView::Feature(
            t,
            BatteryFeature::Status,
        ),
        k == BatteryFeature::Status ==> step_spec(p, r).stage == (if 1 <= t.idx < 6 {
            StageView::SlotCodename((t.idx + 1) as u8)
        } else {
            StageView::Done
        }),
        k == BatteryFeature::Unified ==> request_spec(p.stage) == Some(get_feature_bytes(t.idx, 0x1004)),
        k == BatteryFeature::Voltage ==> request_spec(p.stage) == Some(get_feature_bytes(t.idx, 0x1001)),
        k == BatteryFeature::Status ==> request_spec(p.stage) == Some(get_feature_bytes(t.idx, 0x1000)),
{
}

/// A supported battery feature is read at the index the device gave for it.
pub proof fn law_battery_read_at_given_index(
    p: ProbeView,
    t: TargetView,
    k: BatteryFeature,
    params: Seq<u8>,
)
    requires
        valid_index(t.idx),
        p.stage == StageView::Feature(t, k),
        params.len() >= 1,
        params[0] != 0,
    ensures
        step_spec(p, Ok(params)).stage == StageView::BatteryRead(t, k, params[0]),
        step_spec(p, Ok(params)).found == p.found,
{
}

/// A receiver slot is pinged with the codename the receiver gave for it; when
/// the Unifying codename page gives none, the Bolt page is asked first.
pub proof fn law_slot_codename_then_ping(p: ProbeView, slot: u8, r: Result<Seq<u8>, RpcError>)
    requires
        valid_slot(slot),
        p.stage == StageView::SlotCodename(slot),
    ensures
        step_spec(p, r).found == p.found,
        r matches Ok(params) ==> (codename_at(params, 1) is Some ==> step_spec(p, r).stage
            == StageView::SlotPing(slot, codename_at(params, 1))),
        (match r {
            Ok(params) => codename_at(params, 1) is None,
            Err(_) => true,
        }) ==> step_spec(p, r).stage == StageView::SlotCodenameBolt(slot),
        step_spec(p, r).stage is SlotCodenameBolt ==> request_spec(step_spec(p, r).stage)
            == Some(read_long_register_bytes(0xFF, 0xB5, (0x60 + slot) as u8)),
{
}

/// The ping at index 0xFF decides what the device is: a pong makes it a
/// directly connected HID++ 2.0 device, read there through feature 0x1004
/// first; "invalid sub id" makes it a receiver, whose slot 1 is probed next;
/// a timeout or a HID++ 1.0 error 0x04, 0x08 or 0x09 reports it offline
/// under its product string; any other outcome ends the probe with nothing.
pub proof fn law_direct_ping_outcomes(p: ProbeView, r: Result<Seq<u8>, RpcError>)
    requires
        p.stage == StageView::DirectPing,
    ensures
        (r matches Ok(params) && params.len() >= 3 && params[2] == 0x5A) ==> step_spec(p, r)
            == (ProbeView {
            stage: StageView::Feature(
                TargetView { idx: 0xFF, codename: None },
                BatteryFeature::Unified,
            ),
            ..p
        }),
        r == Err::<Seq<u8>, RpcError>(RpcError::Hidpp10(0x01)) ==> step_spec(p, r) == (ProbeView {
            stage: StageView::SlotCodename(1),
            ..p
        }),
        (r == Err::<Seq<u8>, RpcError>(RpcError::Timeout) || r == Err::<Seq<u8>, RpcError>(
            RpcError::Hidpp10(0x04),
        ) || r == Err::<Seq<u8>, RpcError>(RpcError::Hidpp10(0x08)) || r == Err::<
            Seq<u8>,
            RpcError,
        >(RpcError::Hidpp10(0x09))) ==> step_spec(p, r) == (ProbeView {
            stage: StageView::Done,
            found: p.found.push(
                EntryView {
                    id: "hidpp:"@ + p.key + ":"@ + "255"@,
                    name: p.product,
                    device_type: "device"@,
                    percentage: None,
                    charging: false,
                    online: false,
                    source: "hidpp"@,
                },
            ),
            ..p
        }),
        (r matches Err(e) && e is Io) ==> step_spec(p, r) == (ProbeView {
            stage: StageView::Done,
            ..p
        }),
{
    reveal_strlit("255");
    let d = decimal(0xFF);
    assert(d =~= "255"@);
}

/// The ping of a receiver slot: a pong reads the slot as a HID++ 2.0 device,
/// through feature 0x1004 first; "invalid sub id" reads it as a HID++ 1.0
/// device through register 0x0D; a timeout reports it offline when the
/// receiver gave it a codename (a paired slot) and skips it otherwise.
pub proof fn law_slot_ping_outcomes(
    p: ProbeView,
    slot: u8,
    codename: Option<Seq<char>>,
    r: Result<Seq<u8>, RpcError>,
)
    requires
        valid_slot(slot),
        p.stage == StageView::SlotPing(slot, codename),
    ensures
        (r matches Ok(params) && params.len() >= 3 && params[2] == 0x5A) ==> step_spec(p, r)
            == (ProbeView {
            stage: StageView::Feature(
                TargetView { idx: slot, codename },
                BatteryFeature::Unified,
            ),
            ..p
        }),
        r == Err::<Seq<u8>, RpcError>(RpcError::Hidpp10(0x01)) ==> step_spec(p, r) == (ProbeView {
            stage: StageView::RegMileage(TargetView { idx: slot, codename }),
            ..p
        }),
        (r == Err::<Seq<u8>, RpcError>(RpcError::Timeout) && codename is Some) ==> step_spec(p, r).found
            == p.found.push(
            EntryView {
                id: "hidpp:"@ + p.key + ":"@ + decimal(slot),
                name: codename->0,
                device_type: "device"@,
                percentage: None,
                charging: false,
                online: false,
                source: "hidpp"@,
            },
        ),
        (r == Err::<Seq<u8>, RpcError>(RpcError::Timeout) && codename is None) ==> step_spec(p, r).found
            == p.found,
{
}

/// A HID++ 2.0 device is reported once its type has been asked: online, with
/// the battery reading obtained, named by the nonempty name it gave (else its
/// codename, else the product string), typed by the type code it answered
/// ("device" when that request failed).
pub proof fn law_hidpp2_device_reported(
    p: ProbeView,
    t: TargetView,
    reading: BatteryReading,
    fi: u8,
    name: Option<Seq<char>>,
    r: Result<Seq<u8>, RpcError>,
)
    requires
        valid_index(t.idx),
        p.stage == StageView::DeviceType(t, reading, fi, name),
        r matches Ok(params) ==> params.len() >= 1,
    ensures
        step_spec(p, r).found == p.found.push(
            EntryView {
                id: "hidpp:"@ + p.key + ":"@ + decimal(t.idx),
                name: if name matches Some(n) && n.len() > 0 {
                    name->0
                } else {
                    match t.codename {
                        Some(c) => c,
                        None => p.product,
                    }
                },
                device_type: match r {
                    Ok(params) => device_type_label(params[0])@,
                    Err(_) => "device"@,
                },
                percentage: reading.percentage,
                charging: reading.charging,
                online: true,
                source: "hidpp"@,
            },
        ),
{
}

} // verus!
