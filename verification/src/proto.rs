//! HID++ message encoding and reply parsing on plain bytes.
//!
//! Requests are 7-byte short reports (report id 0x10) or their 20-byte long
//! form (report id 0x11); replies are matched on device index and the echoed
//! header bytes, never on the report id.

use vstd::prelude::*;
use vstd::slice::slice_subrange;

use vstd::utf8::{decode_utf8, valid_utf8};

use crate::text::{decode_utf8_lossy, trim_trailing_nul, trim_nul, utf8_lossy};

verus! {

pub const REPORT_SHORT: u8 = 0x10;

pub const REPORT_LONG: u8 = 0x11;

pub const SHORT_LEN: usize = 7;

pub const LONG_LEN: usize = 20;

/// 4-bit software id echoed back in replies; nonzero (0 marks device events).
pub const SW_ID: u8 = 0x0A;

/// Device index of the receiver itself or of a directly connected device.
pub const DEV_IDX_DIRECT: u8 = 0xFF;

pub const FEAT_DEVICE_NAME: u16 = 0x0005;

pub const FEAT_BATTERY_STATUS: u16 = 0x1000;

pub const FEAT_BATTERY_VOLTAGE: u16 = 0x1001;

pub const FEAT_UNIFIED_BATTERY: u16 = 0x1004;

pub const SUB_GET_REGISTER: u8 = 0x81;

pub const SUB_GET_LONG_REGISTER: u8 = 0x83;

pub const SUB_ERROR_1_0: u8 = 0x8F;

pub const SUB_ERROR_2_0: u8 = 0xFF;

pub const REG_BATTERY_STATUS: u8 = 0x07;

pub const REG_BATTERY_MILEAGE: u8 = 0x0D;

pub const REG_PAIRING_INFO: u8 = 0xB5;

/// HID++ 1.0 error code "invalid sub id": what a HID++ 1.0 receiver answers to a ping.
pub const ERR_INVALID_SUBID: u8 = 0x01;

/// The fourth header byte of a HID++ 2.0 request: function id in the high
/// nibble, software id in the low nibble.
pub open spec fn function_byte(fn_id: u8) -> u8 {
    ((fn_id % 16) * 16 + SW_ID) as u8
}

/// The seven bytes of a short HID++ 2.0 request.
pub open spec fn short_msg_bytes(dev_idx: u8, feat_idx: u8, fn_id: u8, params: Seq<u8>) -> Seq<u8> {
    seq![REPORT_SHORT, dev_idx, feat_idx, function_byte(fn_id), params[0], params[1], params[2]]
}

/// The bytes of an IRoot ping carrying `marker`.
pub open spec fn ping_bytes(dev_idx: u8, marker: u8) -> Seq<u8> {
    short_msg_bytes(dev_idx, 0, 1, seq![0u8, 0u8, marker])
}

/// The bytes of an IRoot getFeature request for `feature_id`.
pub open spec fn get_feature_bytes(dev_idx: u8, feature_id: u16) -> Seq<u8> {
    short_msg_bytes(dev_idx, 0, 0, seq![(feature_id / 256) as u8, (feature_id % 256) as u8, 0u8])
}

/// The bytes of a HID++ 1.0 short register read.
pub open spec fn read_register_bytes(dev_idx: u8, reg: u8) -> Seq<u8> {
    seq![REPORT_SHORT, dev_idx, SUB_GET_REGISTER, reg, 0u8, 0u8, 0u8]
}

/// The bytes of a HID++ 1.0 long register read with first parameter `p0`.
pub open spec fn read_long_register_bytes(dev_idx: u8, reg: u8, p0: u8) -> Seq<u8> {
    seq![REPORT_SHORT, dev_idx, SUB_GET_LONG_REGISTER, reg, p0, 0u8, 0u8]
}

/// The codename request for receiver slot `idx` (page 0x40|(n-1) of register 0xB5).
pub open spec fn codename_request_bytes(idx: u8) -> Seq<u8> {
    read_long_register_bytes(DEV_IDX_DIRECT, REG_PAIRING_INFO, (0x40u8 | ((idx - 1) as u8)) as u8)
}

/// The Bolt codename request for receiver slot `idx` (page 0x60+n of register 0xB5).
pub open spec fn bolt_codename_request_bytes(idx: u8) -> Seq<u8> {
    read_long_register_bytes(DEV_IDX_DIRECT, REG_PAIRING_INFO, (0x60 + idx) as u8)
}

/// Build a short (7-byte) HID++ 2.0 request: feature index, then function id and software id.
pub fn short_msg(dev_idx: u8, feat_idx: u8, fn_id: u8, params: [u8; 3]) -> (m: [u8; 7])
    ensures
        m@ == short_msg_bytes(dev_idx, feat_idx, fn_id, params@),
{
    let f: u8 = (fn_id << 4u8) | SW_ID;
    assert(f == ((fn_id % 16) * 16 + 10) as u8) by (bit_vector)
        requires
            f == (fn_id << 4u8) | 0x0Au8,
    ;
    let m = [REPORT_SHORT, dev_idx, feat_idx, f, params[0], params[1], params[2]];
    assert(m@ =~= short_msg_bytes(dev_idx, feat_idx, fn_id, params@));
    m
}

/// The long (20-byte) form of a short request: report id 0x11, the same six
/// bytes after the report id, then zero padding.
pub open spec fn is_long_form(short: Seq<u8>, long: Seq<u8>) -> bool {
    &&& long.len() == LONG_LEN
    &&& long[0] == REPORT_LONG
    &&& forall|i: int| 1 <= i < SHORT_LEN ==> long[i] == short[i]
    &&& forall|i: int| SHORT_LEN <= i < LONG_LEN ==> long[i] == 0
}

/// Upgrade a short message to a long one, as Bluetooth-direct devices expose
/// only the long-report collection.
pub fn to_long(short: &[u8; 7]) -> (long: [u8; 20])
    ensures
        is_long_form(short@, long@),
{
    let long = [
        REPORT_LONG, short[1], short[2], short[3], short[4], short[5], short[6],
        0, 0, 0, 0, 0, 0, 0, 0, 0, 0, 0, 0, 0,
    ];
    long
}

/// IRoot ping (feature index 0, function 1); `marker` is echoed in the third parameter of the pong.
pub fn ping(dev_idx: u8, marker: u8) -> (m: [u8; 7])
    ensures
        m@ == ping_bytes(dev_idx, marker),
{
    let m = short_msg(dev_idx, 0x00, 0x01, [0, 0, marker]);
    assert([0u8, 0u8, marker]@ =~= seq![0u8, 0u8, marker]);
    m
}

/// IRoot getFeature (feature index 0, function 0) with the feature id big-endian in the parameters.
pub fn get_feature(dev_idx: u8, feature_id: u16) -> (m: [u8; 7])
    ensures
        m@ == get_feature_bytes(dev_idx, feature_id),
{
    let hi: u8 = (feature_id >> 8u16) as u8;
    let lo: u8 = feature_id as u8;
    assert(hi == (feature_id / 256) as u8 && lo == (feature_id % 256) as u8) by (bit_vector)
        requires
            hi == (feature_id >> 8u16) as u8,
            lo == feature_id as u8,
    ;
    let m = short_msg(dev_idx, 0x00, 0x00, [hi, lo, 0]);
    assert([hi, lo, 0u8]@ =~= seq![(feature_id / 256) as u8, (feature_id % 256) as u8, 0u8]);
    m
}

/// HID++ 1.0 short register read.
pub fn read_register(dev_idx: u8, reg: u8) -> (m: [u8; 7])
    ensures
        m@ == read_register_bytes(dev_idx, reg),
{
    let m = [REPORT_SHORT, dev_idx, SUB_GET_REGISTER, reg, 0, 0, 0];
    assert(m@ =~= seq![REPORT_SHORT, dev_idx, SUB_GET_REGISTER, reg, 0u8, 0u8, 0u8]);
    m
}

/// HID++ 1.0 long register read (the reply comes back as a long report).
pub fn read_long_register(dev_idx: u8, reg: u8, p0: u8) -> (m: [u8; 7])
    ensures
        m@ == read_long_register_bytes(dev_idx, reg, p0),
{
    let m = [REPORT_SHORT, dev_idx, SUB_GET_LONG_REGISTER, reg, p0, 0, 0];
    assert(m@ =~= seq![REPORT_SHORT, dev_idx, SUB_GET_LONG_REGISTER, reg, p0, 0u8, 0u8]);
    m
}

/// Receiver register 0xB5, page 0x40|(n-1): codename of the device paired at slot `idx` (1-based).
pub fn read_codename(idx: u8) -> (m: [u8; 7])
    requires
        idx >= 1,
    ensures
        m@ == codename_request_bytes(idx),
{
    read_long_register(DEV_IDX_DIRECT, REG_PAIRING_INFO, 0x40 | (idx - 1))
}

/// Bolt receivers keep the codename of slot `idx` at page 0x60+n of register 0xB5.
pub fn read_codename_bolt(idx: u8) -> (m: [u8; 7])
    requires
        idx <= 0x9F,
    ensures
        m@ == bolt_codename_request_bytes(idx),
{
    read_long_register(DEV_IDX_DIRECT, REG_PAIRING_INFO, 0x60 + idx)
}

/// Outcome of matching an incoming report against a pending request.
#[derive(Debug, PartialEq)]
pub enum Reply<'a> {
    /// Successful reply; the parameters start after the 4-byte header.
    Answer(&'a [u8]),
    /// HID++ 1.0 error (0x8F), also what a receiver sends for a sleeping device.
    Err10(u8),
    /// HID++ 2.0 error (sub id 0xFF).
    Err20(u8),
    /// Unrelated traffic (event broadcast, reply to something else).
    NoMatch,
}

/// What a report means for a pending request, without the borrowed parameters.
pub enum ReplyClass {
    Answer,
    Err10(u8),
    Err20(u8),
    NoMatch,
}

/// A short or long HID++ report of at least six bytes.
pub open spec fn is_hidpp_report(buf: Seq<u8>) -> bool {
    buf.len() >= 6 && (buf[0] == REPORT_SHORT || buf[0] == REPORT_LONG)
}

/// The report comes from the request's device; some Bluetooth devices echo
/// index 0x00 for a request to 0xFF.
pub open spec fn from_requested_device(req: Seq<u8>, buf: Seq<u8>) -> bool {
    buf[1] == req[1] || (req[1] == DEV_IDX_DIRECT && buf[1] == 0)
}

/// An error report of kind `sub` that echoes the request's bytes 2 and 3.
pub open spec fn echoes_error(req: Seq<u8>, buf: Seq<u8>, sub: u8) -> bool {
    buf[2] == sub && buf[3] == req[2] && buf[4] == req[3]
}

/// A report echoing the request's bytes 2 and 3.
pub open spec fn echoes_request(req: Seq<u8>, buf: Seq<u8>) -> bool {
    buf[2] == req[2] && buf[3] == req[3]
}

/// Classification of report `buf` for request `req`.
pub open spec fn reply_class(req: Seq<u8>, buf: Seq<u8>) -> ReplyClass {
    if !is_hidpp_report(buf) || !from_requested_device(req, buf) {
        ReplyClass::NoMatch
    } else if echoes_error(req, buf, SUB_ERROR_1_0) {
        ReplyClass::Err10(buf[5])
    } else if echoes_error(req, buf, SUB_ERROR_2_0) {
        ReplyClass::Err20(buf[5])
    } else if echoes_request(req, buf) {
        ReplyClass::Answer
    } else {
        ReplyClass::NoMatch
    }
}

/// The class of a reply value.
pub open spec fn class_of(r: Reply) -> ReplyClass {
    match r {
        Reply::Answer(_) => ReplyClass::Answer,
        Reply::Err10(c) => ReplyClass::Err10(c),
        Reply::Err20(c) => ReplyClass::Err20(c),
        Reply::NoMatch => ReplyClass::NoMatch,
    }
}

/// Match an incoming report against a pending request, on the device index and
/// the echoed bytes 2-3 only, never on the report id.
pub fn match_reply<'a>(req: &[u8], buf: &'a [u8]) -> (r: Reply<'a>)
    requires
        is_hidpp_report(buf@) ==> req@.len() >= 2,
        is_hidpp_report(buf@) && from_requested_device(req@, buf@) ==> req@.len() >= 4,
    ensures
        class_of(r) == reply_class(req@, buf@),
        r matches Reply::Answer(p) ==> p@ == buf@.subrange(4, buf@.len() as int),
{
    if buf.len() < 6 || (buf[0] != REPORT_SHORT && buf[0] != REPORT_LONG) {
        return Reply::NoMatch;
    }
    let dev_ok = buf[1] == req[1] || (req[1] == DEV_IDX_DIRECT && buf[1] == 0x00);
    if !dev_ok {
        return Reply::NoMatch;
    }
    if buf[2] == SUB_ERROR_1_0 && buf[3] == req[2] && buf[4] == req[3] {
        return Reply::Err10(buf[5]);
    }
    if buf[2] == SUB_ERROR_2_0 && buf[3] == req[2] && buf[4] == req[3] {
        return Reply::Err20(buf[5]);
    }
    if buf[2] == req[2] && buf[3] == req[3] {
        return Reply::Answer(slice_subrange(buf, 4, buf.len()));
    }
    Reply::NoMatch
}

/// A battery level and charging state decoded from one reply.
#[derive(Debug, Clone, Copy, PartialEq, Eq, Structural)]
pub struct BatteryReading {
    pub percentage: Option<u8>,
    pub charging: bool,
}

/// A reading whose percentage, when present, lies in 0..=100.
pub open spec fn valid_reading(r: BatteryReading) -> bool {
    r.percentage matches Some(p) ==> p <= 100
}

/// `p` capped at 100.
pub open spec fn cap_percent(p: u8) -> u8 {
    if p > 100 {
        100
    } else {
        p
    }
}

fn cap100(p: u8) -> (r: u8)
    ensures
        r == cap_percent(p),
{
    if p > 100 {
        100
    } else {
        p
    }
}

/// IRoot getFeature reply: feature index, or None when the feature is unsupported (index 0).
pub fn parse_feature_index(params: &[u8]) -> (r: Option<u8>)
    requires
        params@.len() >= 1,
    ensures
        r == (if params@[0] == 0 {
            None
        } else {
            Some(params@[0])
        }),
{
    if params[0] == 0 {
        None
    } else {
        Some(params[0])
    }
}

/// Whether a pong echoes `marker` in its third parameter.
pub fn parse_pong(params: &[u8], marker: u8) -> (r: bool)
    ensures
        r == (params@.len() >= 3 && params@[2] == marker),
{
    params.len() >= 3 && params[2] == marker
}

/// UNIFIED_BATTERY (0x1004) get_status: p0 = state of charge, p2 = 1, 2 or 3
/// (charging, charging slowly, full on cable) counts as charging.
pub open spec fn unified_battery_reading(params: Seq<u8>) -> BatteryReading {
    BatteryReading {
        percentage: Some(cap_percent(params[0])),
        charging: 1 <= params[2] <= 3,
    }
}

pub fn parse_unified_battery(params: &[u8]) -> (r: BatteryReading)
    requires
        params@.len() >= 3,
    ensures
        r == unified_battery_reading(params@),
        valid_reading(r),
{
    BatteryReading { percentage: Some(cap100(params[0])), charging: 1 <= params[2] && params[2] <= 3 }
}

/// BATTERY_STATUS (0x1000) function 0: p0 = percentage (0: not reported),
/// p2 = 1 to 4 (recharging, full, slow) counts as charging.
pub open spec fn battery_status_reading(params: Seq<u8>) -> BatteryReading {
    BatteryReading {
        percentage: if params[0] == 0 {
            None
        } else {
            Some(cap_percent(params[0]))
        },
        charging: 1 <= params[2] <= 4,
    }
}

pub fn parse_battery_status(params: &[u8]) -> (r: BatteryReading)
    requires
        params@.len() >= 3,
    ensures
        r == battery_status_reading(params@),
        valid_reading(r),
{
    let percentage = if params[0] == 0 {
        None
    } else {
        Some(cap100(params[0]))
    };
    BatteryReading { percentage, charging: 1 <= params[2] && params[2] <= 4 }
}

/// Voltage floors of the Li-ion discharge curve; entry `i` is the lowest
/// voltage (mV) that still reads as `100 - i` percent.
pub const VOLTAGE_CURVE: [u16; 100] = [
    4186, 4156, 4143, 4133, 4122, 4113, 4103, 4094, 4086, 4075,
    4067, 4059, 4051, 4043, 4035, 4027, 4019, 4011, 4003, 3997,
    3989, 3983, 3976, 3969, 3961, 3955, 3949, 3942, 3935, 3929,
    3922, 3916, 3909, 3902, 3896, 3890, 3883, 3877, 3870, 3865,
    3859, 3853, 3848, 3842, 3837, 3833, 3828, 3824, 3819, 3815,
    3811, 3808, 3804, 3800, 3797, 3793, 3790, 3787, 3784, 3781,
    3778, 3775, 3772, 3770, 3767, 3764, 3762, 3759, 3757, 3754,
    3751, 3748, 3744, 3741, 3737, 3734, 3730, 3726, 3724, 3720,
    3717, 3714, 3710, 3706, 3702, 3697, 3693, 3688, 3683, 3677,
    3671, 3666, 3662, 3658, 3654, 3646, 3633, 3612, 3579, 3537,
];

/// The percentage a voltage reads as: `100 - i` for the first curve entry `i`
/// that `mv` reaches, 0 when it is below the whole curve.
pub open spec fn is_curve_percent(mv: u16, p: u8) -> bool {
    &&& p <= 100
    &&& p == 0 ==> forall|j: int| 0 <= j < 100 ==> mv < #[trigger] VOLTAGE_CURVE@[j]
    &&& p > 0 ==> {
        &&& mv >= VOLTAGE_CURVE@[100 - p]
        &&& forall|j: int| 0 <= j < 100 - p ==> mv < #[trigger] VOLTAGE_CURVE@[j]
    }
}

/// At most one percentage fits a voltage.
pub proof fn lemma_curve_percent_unique(mv: u16, p: u8, q: u8)
    requires
        is_curve_percent(mv, p),
        is_curve_percent(mv, q),
    ensures
        p == q,
{
    if p > q {
        assert(mv >= VOLTAGE_CURVE@[100 - p]);
        assert(mv < VOLTAGE_CURVE@[100 - p]);
    } else if q > p {
        assert(mv >= VOLTAGE_CURVE@[100 - q]);
        assert(mv < VOLTAGE_CURVE@[100 - q]);
    }
}

/// The percentage the discharge curve gives for `mv`.
pub open spec fn curve_percent(mv: u16) -> u8 {
    choose|p: u8| is_curve_percent(mv, p)
}

/// Map a battery voltage (mV) to a percentage on the Li-ion discharge curve.
pub fn voltage_to_percent(mv: u16) -> (p: u8)
    ensures
        is_curve_percent(mv, p),
        p == curve_percent(mv),
{
    let p = voltage_percent_search(mv);
    proof {
        lemma_curve_percent_unique(mv, p, curve_percent(mv));
    }
    p
}

fn voltage_percent_search(mv: u16) -> (p: u8)
    ensures
        is_curve_percent(mv, p),
{
    let mut i: usize = 0;
    while i < 100
        invariant
            i <= 100,
            forall|j: int| 0 <= j < i ==> mv < #[trigger] VOLTAGE_CURVE@[j],
        decreases 100 - i,
    {
        if mv >= VOLTAGE_CURVE[i] {
            return (100 - i) as u8;
        }
        i = i + 1;
    }
    0
}

/// Two percentages given by the curve for voltages `lo <= hi` are ordered the same way.
pub proof fn law_voltage_percent_monotone(lo: u16, hi: u16, p_lo: u8, p_hi: u8)
    requires
        lo <= hi,
        is_curve_percent(lo, p_lo),
        is_curve_percent(hi, p_hi),
    ensures
        p_lo <= p_hi,
{
    if p_lo > p_hi {
        // hi reaches the floor that lo reaches, which lies before hi's first floor
        assert(lo >= VOLTAGE_CURVE@[100 - p_lo]);
        assert(hi < VOLTAGE_CURVE@[100 - p_lo]);
    }
}

/// BATTERY_VOLTAGE (0x1001) function 0: p0-p1 = millivolts big-endian;
/// p2 bit 7 = external power, then bits 0-2 = 0 charging / 1 full / 2 error.
pub open spec fn voltage_charging(flags: u8) -> bool {
    flags & 0x80 != 0 && flags & 0x07 <= 1
}

/// The millivolts of a BATTERY_VOLTAGE reply.
pub open spec fn reply_millivolts(params: Seq<u8>) -> u16 {
    (params[0] as int * 256 + params[1] as int) as u16
}

pub open spec fn battery_voltage_reading(params: Seq<u8>) -> BatteryReading {
    BatteryReading {
        percentage: Some(curve_percent(reply_millivolts(params))),
        charging: voltage_charging(params[2]),
    }
}

pub fn parse_battery_voltage(params: &[u8]) -> (r: BatteryReading)
    requires
        params@.len() >= 3,
    ensures
        r == battery_voltage_reading(params@),
        r.percentage matches Some(p) && is_curve_percent(reply_millivolts(params@), p),
        valid_reading(r),
{
    let mv: u16 = (params[0] as u16) * 256 + (params[1] as u16);
    let flags = params[2];
    BatteryReading {
        percentage: Some(voltage_to_percent(mv)),
        charging: flags & 0x80 != 0 && (flags & 0x07) <= 1,
    }
}

/// HID++ 1.0 register 0x0D (battery mileage): p0 = percentage, p2 high nibble
/// 0x50 (recharging) or 0x90 (full) counts as charging.
pub open spec fn reg_mileage_reading(params: Seq<u8>) -> BatteryReading {
    BatteryReading {
        percentage: Some(cap_percent(params[0])),
        charging: params[2] & 0xF0 == 0x50 || params[2] & 0xF0 == 0x90,
    }
}

pub fn parse_reg_mileage(params: &[u8]) -> (r: BatteryReading)
    requires
        params@.len() >= 3,
    ensures
        r == reg_mileage_reading(params@),
        valid_reading(r),
{
    let state = params[2] & 0xF0;
    BatteryReading { percentage: Some(cap100(params[0])), charging: state == 0x50 || state == 0x90 }
}

/// Approximate percentage of a HID++ 1.0 battery level code: 7 full, 5 good, 3 low, 1 critical.
pub open spec fn level_percent(code: u8) -> Option<u8> {
    if code == 7 {
        Some(90)
    } else if code == 5 {
        Some(50)
    } else if code == 3 {
        Some(20)
    } else if code == 1 {
        Some(5)
    } else {
        None
    }
}

/// Charging codes of register 0x07's second parameter.
pub open spec fn is_charging_code(c: u8) -> bool {
    c == 0x21 || c == 0x22 || c == 0x24 || c == 0x25 || c == 0x26
}

/// HID++ 1.0 register 0x07 (battery status): p0 = level code, p1 = charging code.
pub open spec fn reg_status_reading(params: Seq<u8>) -> BatteryReading {
    BatteryReading { percentage: level_percent(params[0]), charging: is_charging_code(params[1]) }
}

pub fn parse_reg_status(params: &[u8]) -> (r: BatteryReading)
    requires
        params@.len() >= 2,
    ensures
        r == reg_status_reading(params@),
        valid_reading(r),
{
    let percentage = match params[0] {
        7 => Some(90u8),
        5 => Some(50u8),
        3 => Some(20u8),
        1 => Some(5u8),
        _ => None,
    };
    let c = params[1];
    BatteryReading {
        percentage,
        charging: c == 0x21 || c == 0x24 || c == 0x25 || c == 0x22 || c == 0x26,
    }
}

/// A codename stored as a length byte at `len_at` followed by the name from
/// `len_at + 1`: the name is the decoded bytes (at most as many as are
/// present) with trailing NULs removed, and there is none when the length is
/// zero or the reply too short to hold the length.
pub open spec fn codename_at(params: Seq<u8>, len_at: int) -> Option<Seq<char>> {
    if params.len() < len_at + 1 {
        None
    } else {
        let bytes = params.subrange(len_at + 1, params.len() as int);
        let n = if params[len_at] as int <= bytes.len() {
            params[len_at] as int
        } else {
            bytes.len() as int
        };
        if n == 0 {
            None
        } else {
            Some(trim_nul(utf8_lossy(bytes.subrange(0, n))))
        }
    }
}

/// The name bytes of a codename reply with the length byte at `len_at`.
pub open spec fn codename_bytes(params: Seq<u8>, len_at: int) -> Seq<u8> {
    let bytes = params.subrange(len_at + 1, params.len() as int);
    let n = if params[len_at] as int <= bytes.len() {
        params[len_at] as int
    } else {
        bytes.len() as int
    };
    bytes.subrange(0, n)
}

fn codename_from(params: &[u8], len_at: usize) -> (r: Option<String>)
    requires
        len_at < 8,
    ensures
        r matches Some(s) ==> codename_at(params@, len_at as int) == Some(s@),
        r is None ==> codename_at(params@, len_at as int) is None,
        r matches Some(s) ==> (valid_utf8(codename_bytes(params@, len_at as int)) ==> s@ == trim_nul(
            decode_utf8(codename_bytes(params@, len_at as int)),
        )),
{
    if params.len() < len_at + 1 {
        return None;
    }
    let start = len_at + 1;
    let avail = params.len() - start;
    let declared = params[len_at] as usize;
    let n = if declared <= avail {
        declared
    } else {
        avail
    };
    if n == 0 {
        return None;
    }
    let name_bytes = slice_subrange(params, start, start + n);
    proof {
        let bytes = params@.subrange(start as int, params@.len() as int);
        assert(bytes.subrange(0, n as int) =~= name_bytes@);
        assert(codename_bytes(params@, len_at as int) =~= name_bytes@);
    }
    let decoded = decode_utf8_lossy(name_bytes);
    Some(trim_trailing_nul(&decoded))
}

/// Unifying/Lightspeed receiver register 0xB5 page 0x40|n reply: p0 echoes
/// the page, p1 = name length, name (ASCII) from p2.
pub fn parse_codename(params: &[u8]) -> (r: Option<String>)
    ensures
        r matches Some(s) ==> codename_at(params@, 1) == Some(s@),
        r is None ==> codename_at(params@, 1) is None,
        r matches Some(s) ==> (valid_utf8(codename_bytes(params@, 1)) ==> s@ == trim_nul(
            decode_utf8(codename_bytes(params@, 1)),
        )),
{
    codename_from(params, 1)
}

/// Bolt receiver register 0xB5 page 0x60+n reply: p0 echoes the page, p2 =
/// name length, name from p3.
pub fn parse_codename_bolt(params: &[u8]) -> (r: Option<String>)
    ensures
        r matches Some(s) ==> codename_at(params@, 2) == Some(s@),
        r is None ==> codename_at(params@, 2) is None,
        r matches Some(s) ==> (valid_utf8(codename_bytes(params@, 2)) ==> s@ == trim_nul(
            decode_utf8(codename_bytes(params@, 2)),
        )),
{
    codename_from(params, 2)
}

/// DEVICE_NAME (0x0005) getDeviceType codes and their names.
pub open spec fn device_type_label(code: u8) -> &'static str {
    if code == 0 {
        "keyboard"
    } else if code == 1 {
        "remote"
    } else if code == 2 {
        "numpad"
    } else if code == 3 {
        "mouse"
    } else if code == 4 {
        "touchpad"
    } else if code == 5 {
        "trackball"
    } else if code == 6 {
        "presenter"
    } else if code == 7 {
        "receiver"
    } else {
        "device"
    }
}

/// Human-readable device type of a getDeviceType code.
pub fn device_type_name(code: u8) -> (r: &'static str)
    ensures
        r == device_type_label(code),
{
    match code {
        0 => "keyboard",
        1 => "remote",
        2 => "numpad",
        3 => "mouse",
        4 => "touchpad",
        5 => "trackball",
        6 => "presenter",
        7 => "receiver",
        _ => "device",
    }
}

/// Replies are matched on device index and echoed header bytes only, so a
/// request upgraded to a long report matches exactly the same replies.
pub proof fn law_reply_ignores_report_length(short: Seq<u8>, long: Seq<u8>, buf: Seq<u8>)
    requires
        short.len() == SHORT_LEN,
        is_long_form(short, long),
    ensures
        reply_class(long, buf) == reply_class(short, buf),
{
    assert(long[1] == short[1] && long[2] == short[2] && long[3] == short[3]);
}

/// A report that echoes a request's device index and header bytes answers it,
/// whatever its report length, unless the request's byte 2 is itself an
/// error sub id.
pub proof fn law_echo_answers_request(req: Seq<u8>, buf: Seq<u8>)
    requires
        req.len() >= 4,
        req[2] != SUB_ERROR_1_0,
        req[2] != SUB_ERROR_2_0,
        buf.len() >= 6,
        buf[0] == REPORT_SHORT || buf[0] == REPORT_LONG,
        buf[1] == req[1],
        buf[2] == req[2],
        buf[3] == req[3],
    ensures
        reply_class(req, buf) == ReplyClass::Answer,
{
}

/// A pong echoing the ping's header and marker answers the ping, and its
/// parameters carry the marker where `parse_pong` looks for it.
pub proof fn law_ping_pong(dev_idx: u8, marker: u8, buf: Seq<u8>)
    requires
        buf.len() >= 7,
        buf[0] == REPORT_SHORT || buf[0] == REPORT_LONG,
        buf[1] == dev_idx,
        buf[2] == 0,
        buf[3] == function_byte(1),
        buf[6] == marker,
    ensures
        reply_class(ping_bytes(dev_idx, marker), buf) == ReplyClass::Answer,
        buf.subrange(4, buf.len() as int).len() >= 3 && buf.subrange(4, buf.len() as int)[2]
            == marker,
{
}

/// A HID++ 1.0 error report for a request is recognized as such, with its error code.
pub proof fn law_hidpp10_error_recognized(req: Seq<u8>, buf: Seq<u8>)
    requires
        req.len() >= 4,
        buf.len() >= 6,
        buf[0] == REPORT_SHORT || buf[0] == REPORT_LONG,
        buf[1] == req[1],
        buf[2] == SUB_ERROR_1_0,
        buf[3] == req[2],
        buf[4] == req[3],
    ensures
        reply_class(req, buf) == ReplyClass::Err10(buf[5]),
{
}

/// A UNIFIED_BATTERY (0x1004) status reply reads as charging exactly when
/// its third parameter is 1 (charging), 2 (charging slowly) or 3 (full on
/// the cable), not when it is 0 (discharging) or 4 and above (error); its
/// level is the first parameter, capped at 100.
pub proof fn law_unified_battery_reading(params: Seq<u8>)
    requires
        params.len() >= 3,
    ensures
        unified_battery_reading(params).charging <==> (params[2] == 1 || params[2] == 2
            || params[2] == 3),
        unified_battery_reading(params).percentage == Some(
            if params[0] <= 100 {
                params[0]
            } else {
                100u8
            },
        ),
{
}

/// A BATTERY_STATUS (0x1000) reply reads as charging exactly when its third
/// parameter is 1 or 2 (recharging), 3 (charge complete, on the cable) or 4
/// (slow recharge); a first parameter of 0 reports no level, any other is the
/// level, capped at 100.
pub proof fn law_battery_status_reading(params: Seq<u8>)
    requires
        params.len() >= 3,
    ensures
        battery_status_reading(params).charging <==> (params[2] == 1 || params[2] == 2
            || params[2] == 3 || params[2] == 4),
        battery_status_reading(params).percentage is None <==> params[0] == 0,
        params[0] != 0 ==> battery_status_reading(params).percentage == Some(
            if params[0] <= 100 {
                params[0]
            } else {
                100u8
            },
        ),
{
}

/// A BATTERY_VOLTAGE (0x1001) reply reads as charging exactly when bit 7 of
/// its third parameter (external power) is set and its low three bits say 0
/// (charging) or 1 (full); its level is the curve's percentage for the
/// big-endian millivolts of the first two parameters.
pub proof fn law_battery_voltage_reading(params: Seq<u8>)
    requires
        params.len() >= 3,
    ensures
        battery_voltage_reading(params).charging <==> (params[2] >= 128 && params[2] % 8 <= 1),
        reply_millivolts(params) == params[0] * 256 + params[1],
{
    let f = params[2];
    assert((f & 0x80 != 0) <==> f >= 128) by (bit_vector);
    assert(f & 0x07 == f % 8) by (bit_vector);
    assert(params[0] * 256 + params[1] <= 0xFFFF) by (nonlinear_arith)
        requires
            params[0] <= 255,
            params[1] <= 255,
    ;
}

/// A HID++ 1.0 mileage register (0x0D) reply reads as charging exactly when
/// the high nibble of its third parameter is 5 (recharging) or 9 (full); its
/// level is the first parameter, capped at 100.
pub proof fn law_reg_mileage_reading(params: Seq<u8>)
    requires
        params.len() >= 3,
    ensures
        reg_mileage_reading(params).charging <==> (params[2] / 16 == 5 || params[2] / 16 == 9),
        reg_mileage_reading(params).percentage == Some(
            if params[0] <= 100 {
                params[0]
            } else {
                100u8
            },
        ),
{
    let f = params[2];
    assert((f & 0xF0 == 0x50) <==> f / 16 == 5) by (bit_vector);
    assert((f & 0xF0 == 0x90) <==> f / 16 == 9) by (bit_vector);
}

/// A HID++ 1.0 status register (0x07) reply: level code 7 reads as 90%, 5 as
/// 50%, 3 as 20%, 1 as 5%, any other code as no level; charging exactly for
/// the charging codes 0x21, 0x22, 0x24, 0x25 and 0x26.
pub proof fn law_reg_status_reading(params: Seq<u8>)
    requires
        params.len() >= 2,
    ensures
        params[0] == 7 ==> reg_status_reading(params).percentage == Some(90u8),
        params[0] == 5 ==> reg_status_reading(params).percentage == Some(50u8),
        params[0] == 3 ==> reg_status_reading(params).percentage == Some(20u8),
        params[0] == 1 ==> reg_status_reading(params).percentage == Some(5u8),
        reg_status_reading(params).percentage is None <==> !(params[0] == 7 || params[0] == 5
            || params[0] == 3 || params[0] == 1),
        reg_status_reading(params).charging <==> (params[1] == 0x21 || params[1] == 0x22
            || params[1] == 0x24 || params[1] == 0x25 || params[1] == 0x26),
{
}

} // verus!
